use bls_chips::errors::{ChipError, Violation};
use bls_chips::fields::FieldChip;
use bls_chips::fields::fp12::Fp12Chip;
use bls_chips::fields::fp2::Fp2Chip;
use bls_chips::fields::fp6::Fp6Chip;
use bls_chips::fields::fp::FpChip;
use bls_chips::fields::vector::{FieldVector, FieldVectorChip, UnreducedVector};
use num_bigint::BigInt;

// An odd modulus of the given number of bits, for a native field that is wide
// enough for limbs of any size.
fn wide_native(bits: usize) -> BigInt {
    (BigInt::from(1) << bits) - 1
}

// The prime 19 is 3 modulo 4 and 1 modulo 6.
fn tiny_chip() -> FpChip {
    FpChip::new(BigInt::from(19), 3, 2, wide_native(40)).unwrap()
}

fn load(chip: &FpChip, coeffs: &[i64]) -> FieldVector {
    let values: Vec<BigInt> = coeffs.iter().map(|c| BigInt::from(*c)).collect();
    FieldVectorChip::new(chip).load_constant(&values)
}

fn values(v: &FieldVector) -> Vec<i64> {
    v.0.iter().map(|c| i64::try_from(c.0.value.clone()).unwrap()).collect()
}

#[test]
fn tower_needs_a_prime_that_is_3_mod_4_and_1_mod_6() {
    let thirteen = FpChip::new(BigInt::from(13), 3, 2, wide_native(40)).unwrap();
    assert!(matches!(Fp2Chip::new(&thirteen), Err(ChipError::UnsupportedModulus)));
    assert!(matches!(Fp12Chip::new(&thirteen, 1), Err(ChipError::UnsupportedModulus)));
    let eleven = FpChip::new(BigInt::from(11), 3, 2, wide_native(40)).unwrap();
    assert!(matches!(Fp2Chip::new(&eleven), Err(ChipError::UnsupportedModulus)));
    let nineteen = tiny_chip();
    assert!(Fp2Chip::new(&nineteen).is_ok());
    assert!(Fp12Chip::new(&nineteen, 1).is_ok());
    assert!(matches!(Fp12Chip::new(&nineteen, 0), Err(ChipError::BoundExceeded)));
    assert!(matches!(Fp12Chip::new(&nineteen, 19), Err(ChipError::BoundExceeded)));
    assert!(Fp12Chip::new(&nineteen, 18).is_ok());
    assert!(Fp6Chip::new(&nineteen, 18).is_ok());
    assert!(matches!(Fp6Chip::new(&nineteen, 19), Err(ChipError::BoundExceeded)));
    assert!(matches!(Fp6Chip::new(&thirteen, 1), Err(ChipError::UnsupportedModulus)));
    let large = FpChip::new(BigInt::from(1_000_003u64), 8, 3, wide_native(64)).unwrap();
    assert!(1_000_003 % 4 == 3 && 1_000_003 % 6 == 1);
    assert!(matches!(Fp12Chip::new(&large, 256), Err(ChipError::BoundExceeded)));
    assert!(Fp12Chip::new(&large, 255).is_ok());
}

#[test]
fn fp2_arithmetic() {
    let fp = tiny_chip();
    let fp2 = Fp2Chip::new(&fp).unwrap();
    let a = load(&fp, &[3, 4]);
    let b = load(&fp, &[5, 6]);
    // (3 + 4u)(5 + 6u) = 15 - 24 + 38u = 10 + 0u modulo 19
    assert_eq!(values(&fp2.mul(&a, &b)), vec![10, 0]);
    let unreduced = fp2.mul_no_carry(&a, &b);
    assert_eq!(unreduced.0[0].value, BigInt::from(-9));
    assert_eq!(unreduced.0[1].value, BigInt::from(38));
    assert_eq!(values(&fp2.add(&a, &b)), vec![8, 10]);
    assert_eq!(values(&fp2.sub(&a, &b)), vec![17, 17]);
    assert_eq!(values(&fp2.negate(&a)), vec![16, 15]);
    assert_eq!(values(&fp2.scalar_mul(&a, 7)), vec![2, 9]);
    assert_eq!(values(&fp2.conjugate(&a)), vec![3, 15]);
    assert_eq!(values(&fp2.mul_by_xi(&a, 9)), vec![(27 - 4) % 19, (3 + 36) % 19]);
    assert_eq!(values(&fp2.one()), vec![1, 0]);
    assert!(fp2.is_equal(&a, &load(&fp, &[22, 23])));
    assert!(!fp2.is_equal(&a, &b));
}

#[test]
fn fp2_inverse_and_quotient() {
    let fp = tiny_chip();
    let fp2 = Fp2Chip::new(&fp).unwrap();
    let a = load(&fp, &[3, 4]);
    let inverse = fp2.inverse(&a).unwrap();
    assert_eq!(values(&fp2.mul(&a, &inverse)), vec![1, 0]);
    let b = load(&fp, &[5, 6]);
    let quotient = fp2.divide(&b, &a).unwrap();
    assert_eq!(values(&fp2.mul(&quotient, &a)), vec![5, 6]);
    let zero = load(&fp, &[0, 19]);
    assert!(matches!(
        fp2.inverse(&zero),
        Err(ChipError::ConstraintViolation(Violation::Divisor))
    ));
}

#[test]
fn fp2_frobenius_is_the_power_p() {
    let fp = tiny_chip();
    let fp2 = Fp2Chip::new(&fp).unwrap();
    let a = load(&fp, &[3, 4]);
    assert_eq!(values(&fp2.frobenius_map(&a, 1)), values(&fp2.pow(&a, &BigInt::from(19))));
    assert_eq!(values(&fp2.frobenius_map(&a, 2)), values(&fp2.pow(&a, &BigInt::from(19 * 19))));
    assert_eq!(values(&fp2.frobenius_map(&a, 0)), vec![3, 4]);
    assert_eq!(values(&fp2.frobenius_map(&a, 3)), vec![3, 15]);
    assert_eq!(values(&fp2.pow(&a, &BigInt::from(0))), vec![1, 0]);
    assert_eq!(values(&fp2.pow(&a, &BigInt::from(1))), vec![3, 4]);
    // (3 + 4u)^2 = 9 - 16 + 24u
    assert_eq!(values(&fp2.pow(&a, &BigInt::from(2))), vec![12, 5]);
}

#[test]
fn fp12_product_wraps_around_xi() {
    let fp = tiny_chip();
    let fp12 = Fp12Chip::new(&fp, 3).unwrap();
    // w * w^5 = w^6 = xi = 3 + u
    let w = load(&fp, &[0, 1, 0, 0, 0, 0, 0, 0, 0, 0, 0, 0]);
    let w5 = load(&fp, &[0, 0, 0, 0, 0, 1, 0, 0, 0, 0, 0, 0]);
    assert_eq!(values(&fp12.mul(&w, &w5)), vec![3, 0, 0, 0, 0, 0, 1, 0, 0, 0, 0, 0]);
    // (u w^2)(u w^3) = -w^5
    let uw2 = load(&fp, &[0, 0, 0, 0, 0, 0, 0, 0, 1, 0, 0, 0]);
    let uw3 = load(&fp, &[0, 0, 0, 0, 0, 0, 0, 0, 0, 1, 0, 0]);
    assert_eq!(values(&fp12.mul(&uw2, &uw3)), vec![0, 0, 0, 0, 0, 18, 0, 0, 0, 0, 0, 0]);
    // (u w^5)(u w^5) = -w^10 = -xi w^4 = (-3 - u) w^4
    let uw5 = load(&fp, &[0, 0, 0, 0, 0, 0, 0, 0, 0, 0, 0, 1]);
    assert_eq!(values(&fp12.mul(&uw5, &uw5)), vec![0, 0, 0, 0, 16, 0, 0, 0, 0, 0, 18, 0]);
    let one = fp12.one();
    let a = load(&fp, &[1, 2, 3, 4, 5, 6, 7, 8, 9, 10, 11, 12]);
    assert_eq!(values(&fp12.mul(&a, &one)), vec![1, 2, 3, 4, 5, 6, 7, 8, 9, 10, 11, 12]);
    assert!(fp12.is_equal(&fp12.mul(&a, &w), &fp12.mul(&w, &a)));
}

#[test]
fn fp12_powers_and_conjugate() {
    let fp = tiny_chip();
    // With xi = 3 + u, which is neither a square nor a cube, the tower is a field.
    let fp12 = Fp12Chip::new(&fp, 3).unwrap();
    let a = load(&fp, &[1, 2, 3, 4, 5, 6, 7, 8, 9, 10, 11, 12]);
    assert_eq!(values(&fp12.pow(&a, &BigInt::from(0))), values(&fp12.one()));
    let square = fp12.mul(&a, &a);
    assert_eq!(values(&fp12.square(&a)), values(&square));
    let unreduced = fp12.square_no_carry(&a);
    let product = fp12.mul_no_carry(&a, &a);
    for i in 0..12 {
        assert_eq!(unreduced.0[i].value, product.0[i].value);
    }
    assert_eq!(values(&fp12.pow(&a, &BigInt::from(2))), values(&square));
    assert_eq!(values(&fp12.pow(&a, &BigInt::from(3))), values(&fp12.mul(&square, &a)));
    assert_eq!(
        values(&fp12.conjugate(&a)),
        vec![1, 17, 3, 15, 5, 13, 7, 11, 9, 9, 11, 7]
    );
    // The conjugate is the power p^6.
    let p6 = BigInt::from(19u64.pow(6));
    assert_eq!(values(&fp12.conjugate(&a)), values(&fp12.pow(&a, &p6)));
}

#[test]
fn vectors_are_loaded_coefficient_by_coefficient() {
    let fp = tiny_chip();
    let chip = FieldVectorChip::new(&fp);
    let witness = chip.load_witness(&vec![BigInt::from(20), BigInt::from(3)]).unwrap();
    assert_eq!(values(&witness), vec![20, 3]);
    assert!(matches!(
        chip.enforce_less_than(&witness),
        Err(ChipError::ConstraintViolation(Violation::FieldReduced))
    ));
    assert!(matches!(
        chip.load_witness(&vec![BigInt::from(3), BigInt::from(64)]),
        Err(ChipError::ConstraintViolation(Violation::FieldRange))
    ));
    assert_eq!(values(&chip.load_constant(&vec![BigInt::from(20), BigInt::from(-1)])), vec![1, 18]);
    let a = load(&fp, &[3, 4]);
    let c = fp.load_witness(&BigInt::from(7)).unwrap();
    assert_eq!(values(&chip.fp_mul(&a, &c)), vec![2, 9]);
    assert_eq!(values(&witness.duplicate(&fp)), vec![20, 3]);
}

#[test]
fn fp12_frobenius_is_the_power_of_p() {
    let fp = tiny_chip();
    let fp12 = Fp12Chip::new(&fp, 3).unwrap();
    let table = fp12.frobenius_table();
    assert_eq!(table.coeffs.len(), 12);
    assert_eq!(values(&table.coeffs[0]), vec![1, 0]);
    let a = load(&fp, &[1, 2, 3, 4, 5, 6, 7, 8, 9, 10, 11, 12]);
    let mut exponent = BigInt::from(1);
    for power in 0..14usize {
        let image = fp12.frobenius_map(&table, &a, power);
        assert_eq!(values(&image), values(&fp12.pow(&a, &exponent)), "power {}", power);
        exponent = exponent * 19;
    }
    assert_eq!(values(&fp12.frobenius_map(&table, &a, 6)), values(&fp12.conjugate(&a)));
    assert_eq!(values(&fp12.fp2_coeff(&a, 2)), vec![3, 9]);
    let parts: Vec<FieldVector> = (0..6).map(|i| fp12.fp2_coeff(&a, i)).collect();
    assert_eq!(values(&fp12.from_fp2_coeffs(&parts)), values(&a));
}

#[test]
fn fp6_product_wraps_around_xi() {
    let fp = tiny_chip();
    let fp6 = Fp6Chip::new(&fp, 3).unwrap();
    // v * v^2 = xi = 3 + u
    let v = load(&fp, &[0, 1, 0, 0, 0, 0]);
    let v2 = load(&fp, &[0, 0, 1, 0, 0, 0]);
    assert_eq!(values(&fp6.mul(&v, &v2)), vec![3, 0, 0, 1, 0, 0]);
    assert_eq!(values(&fp6.mul(&v, &v)), vec![0, 0, 1, 0, 0, 0]);
    assert_eq!(values(&fp6.mul_by_v(&v2)), vec![3, 0, 0, 1, 0, 0]);
    let a = load(&fp, &[1, 2, 3, 4, 5, 6]);
    // (1 + 4u) + (2 + 5u) v + (3 + 6u) v^2 times v
    assert_eq!(values(&fp6.mul_by_v(&a)), vec![(9 - 6) % 19, 1, 2, (3 + 18) % 19, 4, 5]);
    assert_eq!(values(&fp6.mul_by_v(&a)), values(&fp6.mul(&a, &v)));
    assert_eq!(values(&fp6.part(&a, 1)), vec![2, 5]);
    let parts = [fp6.part(&a, 0), fp6.part(&a, 1), fp6.part(&a, 2)];
    assert_eq!(values(&fp6.construct(&parts[0], &parts[1], &parts[2])), values(&a));
}

#[test]
fn fp6_and_fp12_inverses() {
    let fp = tiny_chip();
    let fp6 = Fp6Chip::new(&fp, 3).unwrap();
    let a = load(&fp, &[1, 2, 3, 4, 5, 6]);
    let inverse = fp6.inverse(&a).unwrap();
    assert_eq!(values(&fp6.mul(&a, &inverse)), vec![1, 0, 0, 0, 0, 0]);
    assert_eq!(values(&fp6.divide(&a, &a).unwrap()), vec![1, 0, 0, 0, 0, 0]);
    let zero = load(&fp, &[0, 19, 0, 0, 0, 0]);
    assert!(matches!(
        fp6.inverse(&zero),
        Err(ChipError::ConstraintViolation(Violation::Divisor))
    ));
    let fp12 = Fp12Chip::new(&fp, 3).unwrap();
    let b = load(&fp, &[1, 2, 3, 4, 5, 6, 7, 8, 9, 10, 11, 12]);
    let inverse = fp12.inverse(&b).unwrap();
    assert_eq!(values(&fp12.mul(&b, &inverse)), values(&fp12.one()));
    let c = load(&fp, &[5, 0, 0, 7, 0, 0, 0, 1, 0, 0, 0, 2]);
    let quotient = fp12.divide(&c, &b).unwrap();
    assert_eq!(values(&fp12.mul(&quotient, &b)), values(&c));
    let none = load(&fp, &[0; 12]);
    assert!(matches!(
        fp12.inverse(&none),
        Err(ChipError::ConstraintViolation(Violation::Divisor))
    ));
    assert_eq!(values(&fp12.half(&b, false)), vec![1, 3, 5, 7, 9, 11]);
    assert_eq!(values(&fp12.half(&b, true)), vec![2, 4, 6, 8, 10, 12]);
    let halves = (fp12.half(&b, false), fp12.half(&b, true));
    assert_eq!(values(&fp12.from_halves(&halves.0, &halves.1)), values(&b));
}

#[test]
fn vectors_defer_their_reduction() {
    let fp = tiny_chip();
    let chip = FieldVectorChip::new(&fp);
    let a = load(&fp, &[3, 4]);
    let b = load(&fp, &[18, 6]);
    let unreduced = |v: &FieldVector| UnreducedVector(v.0.iter().map(|c| c.0.duplicate()).collect());
    let sum = chip.add_no_carry(&unreduced(&a), &unreduced(&b));
    assert_eq!(sum.0[0].value, BigInt::from(21));
    assert_eq!(sum.0[1].value, BigInt::from(10));
    assert_eq!(sum.0[0].max_limb_bits, 4);
    let difference = chip.sub_no_carry(&unreduced(&a), &sum);
    assert_eq!(difference.0[0].value, BigInt::from(-18));
    assert_eq!(difference.0[1].value, BigInt::from(-6));
    assert_eq!(difference.0[1].max_limb_bits, 5);
    let scaled = chip.scalar_mul_no_carry(&difference, -7);
    assert_eq!(scaled.0[0].value, BigInt::from(126));
    assert_eq!(scaled.0[1].value, BigInt::from(42));
    assert_eq!(scaled.0[1].max_limb_bits, 5 + 3);
    assert_eq!(values(&chip.carry_mod(&scaled)), vec![126 % 19, 42 % 19]);
    assert_eq!(values(&chip.add(&a, &b)), vec![2, 10]);
    assert_eq!(values(&chip.sub(&a, &b)), vec![4, 17]);
    assert_eq!(values(&chip.negate(&b)), vec![1, 13]);
    assert_eq!(values(&chip.scalar_mul(&b, 3)), vec![54 % 19, 18]);
    assert!(chip.is_equal(&a, &load(&fp, &[22, 4])));
    assert!(!chip.is_equal(&a, &b));
    assert!(chip.enforce_less_than(&a).is_ok());
}
