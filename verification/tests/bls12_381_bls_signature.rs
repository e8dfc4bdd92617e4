use bls_chips::bls12_381::bls_signature::BlsSignatureChip;
use bls_chips::bls12_381::pairing::PairingChip;
use bls_chips::bls12_381;
use bls_chips::curves::{Fq2, G1Affine, G2Affine};
use bls_chips::errors::{ChipError, Violation};
use ff::Field;
use group::Curve;
use halo2curves::{bls12381, CurveAffine};
use halo2curves::pairing::MillerLoopResult;
use num_bigint::{BigInt, Sign};
use rand_core::OsRng;

// The scalar field of BN254 is the native field of the circuits.
fn bn254_native() -> BigInt {
    bls_chips::bn254::order()
}

// An odd modulus of the given number of bits, for a native field that is wide
// enough for limbs of any size.
fn wide_native(bits: usize) -> BigInt {
    (BigInt::from(1) << bits) - 1
}

fn big(x: &bls12381::Fq) -> BigInt {
    BigInt::from_bytes_be(Sign::Plus, &x.to_bytes())
}

fn plain_g1(p: &bls12381::G1Affine) -> G1Affine {
    G1Affine { x: big(&p.x), y: big(&p.y) }
}

fn plain_g2(q: &bls12381::G2Affine) -> G2Affine {
    G2Affine {
        x: Fq2 { c0: big(q.x.c0()), c1: big(q.x.c1()) },
        y: Fq2 { c0: big(q.y.c0()), c1: big(q.y.c1()) },
    }
}

// Writes twelve coefficients the way `halo2curves` prints its elements.
fn fq12_debug(c: &[BigInt]) -> String {
    let two = |i: usize| format!("QuadExtField {{ c0: 0x{:096x}, c1: 0x{:096x} }}", c[i], c[i + 6]);
    let six = |a: usize| {
        format!("CubicExtField {{ c0: {}, c1: {}, c2: {} }}", two(a), two(a + 2), two(a + 4))
    };
    format!("Gt(QuadExtField {{ c0: {}, c1: {} }})", six(0), six(1))
}

#[test]
fn bls12_381_pairing_cubed_matches_halo2curves() {
    let fp_chip = bls12_381::fp_chip(384, 1, wide_native(800)).unwrap();
    let chip = PairingChip::new(&fp_chip).unwrap();
    let g1 = bls12381::G1Affine::generator();
    let g2 = bls12381::G2Affine::generator();
    let p = chip.load_private_g1(&plain_g1(&g1)).unwrap();
    let q = chip.load_private_g2(&plain_g2(&g2)).unwrap();
    let e = chip.pairing(&q, &p).unwrap();
    // `halo2curves` raises to three times the exponent (p^12 - 1) / r.
    let cubed = chip.miller().fp12().pow(&e, &BigInt::from(3));
    let got: Vec<BigInt> = cubed.0.iter().map(|c| c.0.value.clone()).collect();
    let expected = bls12381::multi_miller_loop(&[(&g1, &g2)]).final_exponentiation();
    assert_eq!(format!("{:?}", expected), fq12_debug(&got));
}

#[test]
fn bls12_381_genuine_signature_is_accepted() {
    let fp_chip = bls12_381::fp_chip(384, 1, wide_native(800)).unwrap();
    let pairing_chip = PairingChip::new(&fp_chip).unwrap();
    let chip = BlsSignatureChip::new(&fp_chip, &pairing_chip);
    let sk = bls12381::Fr::random(OsRng);
    let g1 = bls12381::G1Affine::generator();
    let pubkey = (g1 * sk).to_affine();
    let msg_hash = bls12381::G2Affine::generator();
    let signature = (msg_hash * sk).to_affine();
    let outcome = chip
        .bls_signature_verify(
            &plain_g1(&g1),
            &plain_g2(&signature),
            &plain_g1(&pubkey),
            &plain_g2(&msg_hash),
        )
        .unwrap();
    assert!(outcome.is_identity);
}

#[test]
fn bls12_381_signature_of_another_key_is_rejected() {
    let fp_chip = bls12_381::fp_chip(384, 1, wide_native(800)).unwrap();
    let pairing_chip = PairingChip::new(&fp_chip).unwrap();
    let chip = BlsSignatureChip::new(&fp_chip, &pairing_chip);
    let sk = bls12381::Fr::random(OsRng);
    let g1 = bls12381::G1Affine::generator();
    let pubkey = (g1 * sk).to_affine();
    let msg_hash = bls12381::G2Affine::generator();
    let signature = (msg_hash * (sk + bls12381::Fr::ONE)).to_affine();
    let outcome = chip
        .bls_signature_verify(
            &plain_g1(&g1),
            &plain_g2(&signature),
            &plain_g1(&pubkey),
            &plain_g2(&msg_hash),
        )
        .unwrap();
    assert!(!outcome.is_identity);
}

// A point of the twist with the given x coordinate, where there is one.
fn twist_point(x: bls12381::Fq2) -> Option<bls12381::G2Affine> {
    let rhs = x * x * x + bls12381::G2Affine::b();
    let y: Option<bls12381::Fq2> = rhs.sqrt().into();
    y.map(|y| bls12381::G2Affine { x, y })
}

#[test]
fn bls12_381_subgroup_check_on_four_limbs() {
    let fp_chip = bls12_381::fp_chip(104, 4, bn254_native()).unwrap();
    let pairing_chip = PairingChip::new(&fp_chip).unwrap();
    let chip = BlsSignatureChip::new(&fp_chip, &pairing_chip);
    for _ in 0..2 {
        let point = (bls12381::G2Affine::generator() * bls12381::Fr::random(OsRng)).to_affine();
        let loaded = pairing_chip.load_private_g2(&plain_g2(&point)).unwrap();
        assert!(chip.assert_in_g2(&loaded).is_ok());
    }
    let mut tried = 0;
    let mut seed = 1u64;
    while tried < 2 {
        let x = bls12381::Fq2::new(bls12381::Fq::from(seed), bls12381::Fq::from(1));
        seed += 1;
        if let Some(point) = twist_point(x) {
            // A point picked by its x coordinate lies outside the subgroup but for
            // negligible odds: the cofactor of the twist has more than 500 bits.
            let loaded = pairing_chip.load_private_g2(&plain_g2(&point)).unwrap();
            assert!(matches!(
                chip.assert_in_g2(&loaded),
                Err(ChipError::ConstraintViolation(Violation::Subgroup))
            ));
            tried += 1;
        }
    }
}

#[test]
fn bls12_381_witnesses_are_checked() {
    let fp_chip = bls12_381::fp_chip(104, 4, bn254_native()).unwrap();
    let pairing_chip = PairingChip::new(&fp_chip).unwrap();
    let chip = BlsSignatureChip::new(&fp_chip, &pairing_chip);
    let g1 = plain_g1(&bls12381::G1Affine::generator());
    let g2 = plain_g2(&bls12381::G2Affine::generator());
    let mut off = plain_g2(&bls12381::G2Affine::generator());
    off.y.c1 = off.y.c1 + 1;
    let r = chip.bls_signature_verify(&g1, &off, &g1, &g2);
    assert!(matches!(r, Err(ChipError::ConstraintViolation(Violation::OnCurve))));
    let mut wide = plain_g1(&bls12381::G1Affine::generator());
    wide.x = BigInt::from(1) << 416;
    let r = chip.bls_signature_verify(&g1, &g2, &wide, &g2);
    assert!(matches!(r, Err(ChipError::ConstraintViolation(Violation::FieldRange))));
    let mut unreduced = plain_g1(&bls12381::G1Affine::generator());
    unreduced.x = &unreduced.x + &fp_chip.p;
    let r = chip.bls_signature_verify(&g1, &g2, &unreduced, &g2);
    assert!(matches!(r, Err(ChipError::ConstraintViolation(Violation::FieldReduced))));
    // The field chip of another curve is refused.
    let other = bls_chips::bn254::fp_chip(90, 3, bn254_native()).unwrap();
    assert!(matches!(PairingChip::new(&other), Err(ChipError::UnsupportedModulus)));
    assert!(matches!(
        bls_chips::bn254::pairing::PairingChip::new(&fp_chip),
        Err(ChipError::UnsupportedModulus)
    ));
    // Four limbs of 90 bits do not hold the prime.
    assert!(matches!(bls12_381::fp_chip(90, 4, bn254_native()), Err(ChipError::BoundExceeded)));
}

#[test]
fn bls12_381_chip_signs_as_halo2curves_does() {
    let fp_chip = bls12_381::fp_chip(104, 4, bn254_native()).unwrap();
    let pairing_chip = PairingChip::new(&fp_chip).unwrap();
    let chip = BlsSignatureChip::new(&fp_chip, &pairing_chip);
    let g1 = bls12381::G1Affine::generator();
    let msg_hash = bls12381::G2Affine::generator();
    let scalar = BigInt::from(0xdead_beef_u64) << 150;
    let sk = bls12381::Fr::from(0xdead_beef_u64) * bls12381::Fr::from(2).pow([150u64]);
    let pubkey = chip.public_key(&plain_g1(&g1), &scalar).unwrap();
    let expected_key = plain_g1(&(g1 * sk).to_affine());
    assert_eq!((pubkey.x, pubkey.y), (expected_key.x, expected_key.y));
    let signature = chip.sign(&plain_g2(&msg_hash), &scalar).unwrap();
    let expected = plain_g2(&(msg_hash * sk).to_affine());
    assert_eq!(
        (signature.x.c0, signature.x.c1, signature.y.c0, signature.y.c1),
        (expected.x.c0, expected.x.c1, expected.y.c0, expected.y.c1)
    );
}
