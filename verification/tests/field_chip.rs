use bls_chips::bigint::{big_from_limbs, big_pow2, ResidueInteger};
use bls_chips::errors::{ChipError, Violation};
use bls_chips::fields::fp::{big_bit_length, bit_length_of, FieldElement, FpChip};
use num_bigint::BigInt;

// An odd modulus of the given number of bits, for a native field that is wide
// enough for limbs of any size.
fn wide_native(bits: usize) -> BigInt {
    (BigInt::from(1) << bits) - 1
}

fn small_chip() -> FpChip {
    // The prime 1000003 on three limbs of eight bits in a native field of 64 bits.
    FpChip::new(BigInt::from(1_000_003u64), 8, 3, wide_native(64)).unwrap()
}

fn limbs_of(x: &ResidueInteger) -> Vec<i64> {
    x.limbs.iter().map(|l| i64::try_from(l.clone()).unwrap()).collect()
}

fn value_of(x: &FieldElement) -> i64 {
    i64::try_from(x.0.value.clone()).unwrap()
}

#[test]
fn chip_refuses_a_modulus_below_two() {
    assert!(matches!(FpChip::new(BigInt::from(1), 8, 3, wide_native(64)), Err(ChipError::UnsupportedModulus)));
    assert!(matches!(FpChip::new(BigInt::from(-7), 8, 3, wide_native(64)), Err(ChipError::UnsupportedModulus)));
}

#[test]
fn chip_refuses_a_sizing_without_headroom() {
    // 2 * 8 + 2 + 24 + 1 = 43 bits are needed.
    assert!(matches!(FpChip::new(BigInt::from(251), 8, 3, wide_native(42)), Err(ChipError::BoundExceeded)));
    assert!(FpChip::new(BigInt::from(251), 8, 3, wide_native(43)).is_ok());
    // The limbs must hold the modulus.
    assert!(matches!(
        FpChip::new(BigInt::from(1u64 << 24), 8, 3, wide_native(64)),
        Err(ChipError::BoundExceeded)
    ));
    assert!(matches!(FpChip::new(BigInt::from(251), 0, 3, wide_native(64)), Err(ChipError::BoundExceeded)));
    assert!(matches!(FpChip::new(BigInt::from(251), 8, 0, wide_native(64)), Err(ChipError::BoundExceeded)));
}

#[test]
fn witness_is_split_into_limbs() {
    let chip = small_chip();
    let x = chip.load_witness(&BigInt::from(0x0a0b0c)).unwrap();
    assert_eq!(limbs_of(&x.0), vec![0x0c, 0x0b, 0x0a]);
    assert_eq!(value_of(&x), 0x0a0b0c);
    assert_eq!(x.0.max_limb_bits, 8);
}

#[test]
fn witness_outside_the_limbs_fails_the_range_check() {
    let chip = small_chip();
    assert!(matches!(
        chip.load_witness(&BigInt::from(1u64 << 24)),
        Err(ChipError::ConstraintViolation(Violation::FieldRange))
    ));
    assert!(matches!(
        chip.load_witness(&BigInt::from(-1)),
        Err(ChipError::ConstraintViolation(Violation::FieldRange))
    ));
    assert!(chip.load_witness(&BigInt::from((1u64 << 24) - 1)).is_ok());
}

#[test]
fn unreduced_witness_fails_enforce_less_than() {
    let chip = small_chip();
    let reduced = chip.load_witness(&BigInt::from(1_000_002)).unwrap();
    assert!(chip.enforce_less_than(&reduced).is_ok());
    let unreduced = chip.load_witness(&BigInt::from(1_000_003)).unwrap();
    assert!(matches!(
        chip.enforce_less_than(&unreduced),
        Err(ChipError::ConstraintViolation(Violation::FieldReduced))
    ));
}

#[test]
fn constant_is_reduced_on_loading() {
    let chip = small_chip();
    assert_eq!(value_of(&chip.load_constant(&BigInt::from(1_000_010))), 7);
    assert_eq!(value_of(&chip.load_constant(&BigInt::from(-1))), 1_000_002);
}

#[test]
fn no_carry_operations_act_on_limbs() {
    let chip = small_chip();
    let a = chip.load_witness(&BigInt::from(0x010203)).unwrap();
    let b = chip.load_witness(&BigInt::from(0x0405ff)).unwrap();
    let sum = chip.add_no_carry(&a.0, &b.0);
    assert_eq!(limbs_of(&sum), vec![0x03 + 0xff, 0x02 + 0x05, 0x01 + 0x04]);
    assert_eq!(sum.value, BigInt::from(0x010203 + 0x0405ff));
    assert_eq!(sum.max_limb_bits, 9);
    let difference = chip.sub_no_carry(&a.0, &b.0);
    assert_eq!(limbs_of(&difference), vec![0x03 - 0xff, 0x02 - 0x05, 0x01 - 0x04]);
    assert_eq!(difference.value, BigInt::from(0x010203 - 0x0405ff));
    assert_eq!(difference.max_limb_bits, 9);
    let scaled = chip.scalar_mul_no_carry(&a.0, -5);
    assert_eq!(limbs_of(&scaled), vec![-15, -10, -5]);
    assert_eq!(scaled.value, BigInt::from(-5 * 0x010203));
    assert_eq!(scaled.max_limb_bits, 8 + 3);
}

#[test]
fn product_without_carry_is_the_product_of_the_limb_polynomials() {
    let chip = small_chip();
    let a = chip.load_witness(&BigInt::from(0x010203)).unwrap();
    let b = chip.load_witness(&BigInt::from(0x040506)).unwrap();
    let product = chip.mul_no_carry(&a, &b);
    // (3 + 2 X + X^2)(6 + 5 X + 4 X^2)
    assert_eq!(limbs_of(&product), vec![18, 15 + 12, 12 + 10 + 6, 8 + 5, 4]);
    assert_eq!(product.value, BigInt::from(0x010203u64 * 0x040506u64));
    assert_eq!(product.max_limb_bits, 2 * 8 + 2);
}

#[test]
fn carry_mod_of_a_product_is_the_modular_product() {
    let chip = small_chip();
    for (x, y) in [(123_456u64, 654_321u64), (1_000_002, 1_000_002), (0, 5), (1_000_003, 7)] {
        let a = chip.load_witness(&BigInt::from(x)).unwrap();
        let b = chip.load_witness(&BigInt::from(y)).unwrap();
        let reduced = chip.carry_mod(&chip.mul_no_carry(&a, &b));
        let expected = ((x as u128 * y as u128) % 1_000_003) as i64;
        assert_eq!(value_of(&reduced), expected);
        assert_eq!(value_of(&chip.mul(&a, &b)), expected);
        let digits = limbs_of(&reduced.0);
        assert_eq!(digits.len(), 3);
        assert_eq!(digits[0] + (digits[1] << 8) + (digits[2] << 16), expected);
    }
}

#[test]
fn carry_mod_of_a_negative_value_is_not_negative() {
    let chip = small_chip();
    let a = chip.load_witness(&BigInt::from(5)).unwrap();
    let b = chip.load_witness(&BigInt::from(9)).unwrap();
    assert_eq!(value_of(&chip.carry_mod(&chip.sub_no_carry(&a.0, &b.0))), 1_000_003 - 4);
    assert_eq!(value_of(&chip.sub(&a, &b)), 1_000_003 - 4);
    assert_eq!(value_of(&chip.negate(&a)), 1_000_003 - 5);
    assert_eq!(value_of(&chip.add(&a, &b)), 14);
    assert_eq!(value_of(&chip.scalar_mul(&b, -3)), 1_000_003 - 27);
}

#[test]
fn inverse_and_quotient() {
    let chip = small_chip();
    let a = chip.load_witness(&BigInt::from(123_456)).unwrap();
    let inverse = chip.inverse(&a).unwrap();
    assert_eq!((value_of(&inverse) as u128 * 123_456u128) % 1_000_003, 1);
    let b = chip.load_witness(&BigInt::from(77)).unwrap();
    let quotient = chip.divide(&b, &a).unwrap();
    assert_eq!((value_of(&quotient) as u128 * 123_456u128) % 1_000_003, 77);
    let zero = chip.load_witness(&BigInt::from(0)).unwrap();
    assert!(matches!(
        chip.inverse(&zero),
        Err(ChipError::ConstraintViolation(Violation::Divisor))
    ));
    let multiple = chip.load_witness(&BigInt::from(1_000_003)).unwrap();
    assert!(matches!(
        chip.divide(&b, &multiple),
        Err(ChipError::ConstraintViolation(Violation::Divisor))
    ));
}

#[test]
fn equality_is_equality_of_classes() {
    let chip = small_chip();
    let a = chip.load_witness(&BigInt::from(5)).unwrap();
    let b = chip.load_witness(&BigInt::from(1_000_008)).unwrap();
    let c = chip.load_witness(&BigInt::from(6)).unwrap();
    assert!(chip.is_equal(&a, &b));
    assert!(!chip.is_equal(&a, &c));
    assert!(chip.is_zero(&chip.load_witness(&BigInt::from(1_000_003)).unwrap()));
    assert!(!chip.is_zero(&a));
}

#[test]
fn copies_keep_value_and_limbs() {
    let chip = small_chip();
    let a = chip.load_witness(&BigInt::from(0x0a0b0c)).unwrap();
    let copy = a.duplicate();
    assert_eq!(limbs_of(&copy.0), limbs_of(&a.0));
    assert_eq!(value_of(&copy), 0x0a0b0c);
}

#[test]
fn helpers_on_big_integers() {
    assert_eq!(big_pow2(0), BigInt::from(1));
    assert_eq!(big_pow2(70), BigInt::from(1u128 << 70));
    assert_eq!(big_from_limbs(&vec![]), BigInt::from(0));
    assert_eq!(big_from_limbs(&vec![7, 1, 2]), BigInt::from(7u128 + (1u128 << 64)) + (BigInt::from(2) << 128));
    assert_eq!(bit_length_of(0), 0);
    assert_eq!(bit_length_of(1), 1);
    assert_eq!(bit_length_of(9), 4);
    assert_eq!(bit_length_of(u64::MAX), 64);
    assert_eq!(big_bit_length(&BigInt::from(0)), Some(0));
    assert_eq!(big_bit_length(&BigInt::from(255)), Some(8));
    assert_eq!(big_bit_length(&(BigInt::from(1) << 300)), Some(301));
    assert_eq!(big_bit_length(&BigInt::from(-1)), None);
    assert_eq!(big_bit_length(&(BigInt::from(1) << 4096)), None);
    assert_eq!(big_bit_length(&((BigInt::from(1) << 4096) - 1)), Some(4096));
}

#[test]
fn native_checksum_is_the_remainder_in_the_native_field() {
    let native = wide_native(43);
    let chip = FpChip::new(BigInt::from(1_000_003u64), 8, 3, native.clone()).unwrap();
    let a = chip.load_witness(&BigInt::from(0xfedcba)).unwrap();
    let b = chip.load_witness(&BigInt::from(0xabcdef)).unwrap();
    assert_eq!(chip.native_checksum(&a.0), BigInt::from(0xfedcba));
    let product = chip.mul_no_carry(&a, &b);
    // The product has 48 bits and wraps around the native modulus of 43 bits.
    let expected = (0xfedcbau64 * 0xabcdefu64) % ((1u64 << 43) - 1);
    assert!(0xfedcbau64 * 0xabcdefu64 > (1u64 << 43));
    assert_eq!(chip.native_checksum(&product), BigInt::from(expected));
    let difference = chip.sub_no_carry(&b.0, &a.0);
    assert_eq!(chip.native_checksum(&difference), &native - BigInt::from(0xfedcba - 0xabcdef));
    let scaled = chip.scalar_mul_no_carry(&a.0, -5);
    assert_eq!(chip.native_checksum(&scaled), &native - BigInt::from(5 * 0xfedcba));
}

#[test]
fn chip_refuses_a_native_modulus_that_is_not_positive() {
    assert!(matches!(
        FpChip::new(BigInt::from(251), 8, 3, BigInt::from(0)),
        Err(ChipError::BoundExceeded)
    ));
    assert!(matches!(
        FpChip::new(BigInt::from(251), 8, 3, -wide_native(64)),
        Err(ChipError::BoundExceeded)
    ));
    assert!(matches!(
        FpChip::new(BigInt::from(251), 8, 3, wide_native(5000)),
        Err(ChipError::BoundExceeded)
    ));
    let chip = FpChip::new(BigInt::from(251), 8, 3, wide_native(64)).unwrap();
    assert_eq!(chip.native_bits, 64);
    assert_eq!(chip.product_bits, 18);
}
