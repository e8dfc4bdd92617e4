use bls_chips::bn254::bls_signature::BlsSignatureChip;
use bls_chips::bn254::pairing::PairingChip;
use bls_chips::bn254;
use bls_chips::curves::{Fq2, G1Affine, G2Affine};
use bls_chips::errors::{ChipError, Violation};
use ff::Field;
use group::Curve;
use halo2curves::{bn256, CurveAffine};
use halo2curves::pairing::MillerLoopResult;
use num_bigint::{BigInt, Sign};
use rand_core::OsRng;

// The scalar field of BN254 is the native field of the circuits.
fn bn254_native() -> BigInt {
    bls_chips::bn254::order()
}

// An odd modulus of the given number of bits, for a native field that is wide
// enough for limbs of any size.
fn wide_native(bits: usize) -> BigInt {
    (BigInt::from(1) << bits) - 1
}

fn big(x: &bn256::Fq) -> BigInt {
    BigInt::from_bytes_le(Sign::Plus, &x.to_bytes())
}

fn plain_g1(p: &bn256::G1Affine) -> G1Affine {
    G1Affine { x: big(&p.x), y: big(&p.y) }
}

fn plain_g2(q: &bn256::G2Affine) -> G2Affine {
    G2Affine {
        x: Fq2 { c0: big(q.x.c0()), c1: big(q.x.c1()) },
        y: Fq2 { c0: big(q.y.c0()), c1: big(q.y.c1()) },
    }
}

#[test]
fn genuine_signature_is_accepted() {
    // One limb keeps the final exponentiation short.
    let fp_chip = bn254::fp_chip(256, 1, wide_native(600)).unwrap();
    let pairing_chip = PairingChip::new(&fp_chip).unwrap();
    let chip = BlsSignatureChip::new(&fp_chip, &pairing_chip);
    let sk = bn256::Fr::random(OsRng);
    let g1 = bn256::G1Affine::generator();
    let pubkey = (g1 * sk).to_affine();
    let msg_hash = bn256::G2Affine::generator();
    let signature = (msg_hash * sk).to_affine();
    let outcome = chip
        .bls_signature_verify(
            &plain_g1(&g1),
            &vec![plain_g2(&signature)],
            &vec![plain_g1(&pubkey)],
            &plain_g2(&msg_hash),
        )
        .unwrap();
    assert!(outcome.is_identity);
}

#[test]
fn signature_of_another_key_is_rejected() {
    // One limb keeps the final exponentiation short.
    let fp_chip = bn254::fp_chip(256, 1, wide_native(600)).unwrap();
    let pairing_chip = PairingChip::new(&fp_chip).unwrap();
    let chip = BlsSignatureChip::new(&fp_chip, &pairing_chip);
    let sk = bn256::Fr::random(OsRng);
    let g1 = bn256::G1Affine::generator();
    let pubkey = (g1 * sk).to_affine();
    let msg_hash = bn256::G2Affine::generator();
    let signature = (msg_hash * (sk + bn256::Fr::ONE)).to_affine();
    let outcome = chip
        .bls_signature_verify(
            &plain_g1(&g1),
            &vec![plain_g2(&signature)],
            &vec![plain_g1(&pubkey)],
            &plain_g2(&msg_hash),
        )
        .unwrap();
    assert!(!outcome.is_identity);
}

#[test]
fn lists_of_different_length_are_refused() {
    let fp_chip = bn254::fp_chip(90, 3, bn254_native()).unwrap();
    let pairing_chip = PairingChip::new(&fp_chip).unwrap();
    let chip = BlsSignatureChip::new(&fp_chip, &pairing_chip);
    let g1 = bn256::G1Affine::generator();
    let g2 = bn256::G2Affine::generator();
    let r = chip.bls_signature_verify(&plain_g1(&g1), &vec![plain_g2(&g2)], &vec![], &plain_g2(&g2));
    assert!(matches!(r, Err(ChipError::InputShape)));
    let r = chip.bls_signature_verify(&plain_g1(&g1), &vec![], &vec![], &plain_g2(&g2));
    assert!(matches!(r, Err(ChipError::InputShape)));
}

#[test]
fn point_off_the_twist_is_refused() {
    let fp_chip = bn254::fp_chip(90, 3, bn254_native()).unwrap();
    let pairing_chip = PairingChip::new(&fp_chip).unwrap();
    let chip = BlsSignatureChip::new(&fp_chip, &pairing_chip);
    let g1 = bn256::G1Affine::generator();
    let g2 = bn256::G2Affine::generator();
    let mut bad = plain_g2(&g2);
    bad.y.c0 = bad.y.c0 + 1;
    let r = chip.bls_signature_verify(
        &plain_g1(&g1),
        &vec![plain_g2(&g2)],
        &vec![plain_g1(&g1)],
        &bad,
    );
    assert!(matches!(r, Err(ChipError::ConstraintViolation(Violation::OnCurve))));
}

// Key pairs with their signatures on one hashed message.
fn signed_by(count: usize) -> (bn256::G1Affine, Vec<bn256::G2Affine>, Vec<bn256::G1Affine>, bn256::G2Affine) {
    let g1 = bn256::G1Affine::generator();
    let msg_hash = (bn256::G2Affine::generator() * bn256::Fr::random(OsRng)).to_affine();
    let mut signatures = Vec::new();
    let mut pubkeys = Vec::new();
    for _ in 0..count {
        let sk = bn256::Fr::random(OsRng);
        signatures.push((msg_hash * sk).to_affine());
        pubkeys.push((g1 * sk).to_affine());
    }
    (g1, signatures, pubkeys, msg_hash)
}

fn plain_all_g2(points: &[bn256::G2Affine]) -> Vec<G2Affine> {
    points.iter().map(plain_g2).collect()
}

fn plain_all_g1(points: &[bn256::G1Affine]) -> Vec<G1Affine> {
    points.iter().map(plain_g1).collect()
}

#[test]
fn aggregate_of_genuine_signatures_is_accepted() {
    let fp_chip = bn254::fp_chip(256, 1, wide_native(600)).unwrap();
    let pairing_chip = PairingChip::new(&fp_chip).unwrap();
    let chip = BlsSignatureChip::new(&fp_chip, &pairing_chip);
    let (g1, signatures, pubkeys, msg_hash) = signed_by(3);
    let outcome = chip
        .bls_signature_verify(
            &plain_g1(&g1),
            &plain_all_g2(&signatures),
            &plain_all_g1(&pubkeys),
            &plain_g2(&msg_hash),
        )
        .unwrap();
    assert!(outcome.is_identity);
}

#[test]
fn aggregate_with_a_tampered_signature_is_rejected() {
    let fp_chip = bn254::fp_chip(256, 1, wide_native(600)).unwrap();
    let pairing_chip = PairingChip::new(&fp_chip).unwrap();
    let chip = BlsSignatureChip::new(&fp_chip, &pairing_chip);
    let (g1, mut signatures, pubkeys, msg_hash) = signed_by(3);
    signatures[1] = (signatures[1] + msg_hash).to_affine();
    let outcome = chip
        .bls_signature_verify(
            &plain_g1(&g1),
            &plain_all_g2(&signatures),
            &plain_all_g1(&pubkeys),
            &plain_g2(&msg_hash),
        )
        .unwrap();
    assert!(!outcome.is_identity);
}

#[test]
fn aggregate_with_a_tampered_public_key_is_rejected() {
    let fp_chip = bn254::fp_chip(256, 1, wide_native(600)).unwrap();
    let pairing_chip = PairingChip::new(&fp_chip).unwrap();
    let chip = BlsSignatureChip::new(&fp_chip, &pairing_chip);
    let (g1, signatures, mut pubkeys, msg_hash) = signed_by(3);
    pubkeys[2] = (pubkeys[2] + g1).to_affine();
    let outcome = chip
        .bls_signature_verify(
            &plain_g1(&g1),
            &plain_all_g2(&signatures),
            &plain_all_g1(&pubkeys),
            &plain_g2(&msg_hash),
        )
        .unwrap();
    assert!(!outcome.is_identity);
}

#[test]
fn aggregate_value_matches_halo2curves() {
    let fp_chip = bn254::fp_chip(256, 1, wide_native(600)).unwrap();
    let pairing_chip = PairingChip::new(&fp_chip).unwrap();
    let chip = BlsSignatureChip::new(&fp_chip, &pairing_chip);
    let (g1, mut signatures, pubkeys, msg_hash) = signed_by(2);
    signatures[0] = (signatures[0] + msg_hash).to_affine();
    let outcome = chip
        .bls_signature_verify(
            &plain_g1(&g1),
            &plain_all_g2(&signatures),
            &plain_all_g1(&pubkeys),
            &plain_g2(&msg_hash),
        )
        .unwrap();
    let signature_sum = (signatures[0] + signatures[1]).to_affine();
    let pubkey_sum = (pubkeys[0] + pubkeys[1]).to_affine();
    let expected =
        bn256::multi_miller_loop(&[(&g1, &(-signature_sum)), (&pubkey_sum, &msg_hash)])
            .final_exponentiation();
    let c: Vec<&BigInt> = outcome.value.0.iter().map(|e| &e.0.value).collect();
    let two = |i: usize| format!("QuadExtField {{ c0: 0x{:064x}, c1: 0x{:064x} }}", c[i], c[i + 6]);
    let six = |a: usize| {
        format!("CubicExtField {{ c0: {}, c1: {}, c2: {} }}", two(a), two(a + 2), two(a + 4))
    };
    let got = format!("Gt(QuadExtField {{ c0: {}, c1: {} }})", six(0), six(1));
    assert_eq!(got, format!("{:?}", expected));
}

// A point of the twist with the given x coordinate, where there is one.
fn twist_point(x: bn256::Fq2) -> Option<bn256::G2Affine> {
    let rhs = x * x * x + bn256::G2Affine::b();
    let y: Option<bn256::Fq2> = rhs.sqrt().into();
    y.map(|y| bn256::G2Affine { x, y })
}

#[test]
fn points_of_the_subgroup_pass_the_subgroup_check() {
    let fp_chip = bn254::fp_chip(90, 3, bn254_native()).unwrap();
    let pairing_chip = PairingChip::new(&fp_chip).unwrap();
    let chip = BlsSignatureChip::new(&fp_chip, &pairing_chip);
    for _ in 0..4 {
        let point = (bn256::G2Affine::generator() * bn256::Fr::random(OsRng)).to_affine();
        let loaded = pairing_chip.load_private_g2(&plain_g2(&point)).unwrap();
        assert!(chip.assert_in_g2(&loaded).is_ok());
    }
}

#[test]
fn points_outside_the_subgroup_fail_the_subgroup_check() {
    let fp_chip = bn254::fp_chip(90, 3, bn254_native()).unwrap();
    let pairing_chip = PairingChip::new(&fp_chip).unwrap();
    let chip = BlsSignatureChip::new(&fp_chip, &pairing_chip);
    let mut tried = 0;
    let mut seed = 1u64;
    while tried < 4 {
        let x = bn256::Fq2::new(bn256::Fq::from(seed), bn256::Fq::from(1));
        seed += 1;
        if let Some(point) = twist_point(x) {
            // The cofactor of the twist is about as large as the group, so a point
            // picked by its x coordinate lies outside the subgroup but for negligible odds.
            let loaded = pairing_chip.load_private_g2(&plain_g2(&point)).unwrap();
            assert!(matches!(
                chip.assert_in_g2(&loaded),
                Err(ChipError::ConstraintViolation(Violation::Subgroup))
            ));
            tried += 1;
        }
    }
}

#[test]
fn signature_outside_the_subgroup_is_refused() {
    let fp_chip = bn254::fp_chip(90, 3, bn254_native()).unwrap();
    let pairing_chip = PairingChip::new(&fp_chip).unwrap();
    let chip = BlsSignatureChip::new(&fp_chip, &pairing_chip);
    let g1 = bn256::G1Affine::generator();
    let g2 = bn256::G2Affine::generator();
    let mut seed = 1u64;
    let outside = loop {
        let x = bn256::Fq2::new(bn256::Fq::from(seed), bn256::Fq::from(2));
        seed += 1;
        if let Some(point) = twist_point(x) {
            break point;
        }
    };
    let r = chip.bls_signature_verify(
        &plain_g1(&g1),
        &vec![plain_g2(&outside)],
        &vec![plain_g1(&g1)],
        &plain_g2(&g2),
    );
    assert!(matches!(r, Err(ChipError::ConstraintViolation(Violation::Subgroup))));
}

#[test]
fn witnesses_out_of_range_or_unreduced_are_refused() {
    let fp_chip = bn254::fp_chip(90, 3, bn254_native()).unwrap();
    let pairing_chip = PairingChip::new(&fp_chip).unwrap();
    let chip = BlsSignatureChip::new(&fp_chip, &pairing_chip);
    let g1 = plain_g1(&bn256::G1Affine::generator());
    let g2 = plain_g2(&bn256::G2Affine::generator());
    // 2^270 does not fit three limbs of 90 bits.
    let mut wide = plain_g1(&bn256::G1Affine::generator());
    wide.y = BigInt::from(1) << 270;
    let r = chip.bls_signature_verify(&wide, &vec![plain_g2(&bn256::G2Affine::generator())], &vec![plain_g1(&bn256::G1Affine::generator())], &g2);
    assert!(matches!(r, Err(ChipError::ConstraintViolation(Violation::FieldRange))));
    // x + p fits the limbs but is not the reduced representative.
    let mut unreduced = plain_g1(&bn256::G1Affine::generator());
    unreduced.x = &unreduced.x + &fp_chip.p;
    let r = chip.bls_signature_verify(&g1, &vec![plain_g2(&bn256::G2Affine::generator())], &vec![unreduced], &g2);
    assert!(matches!(r, Err(ChipError::ConstraintViolation(Violation::FieldReduced))));
    let mut unreduced_signature = plain_g2(&bn256::G2Affine::generator());
    unreduced_signature.x.c1 = &unreduced_signature.x.c1 + &fp_chip.p;
    let r = chip.bls_signature_verify(&g1, &vec![unreduced_signature], &vec![plain_g1(&bn256::G1Affine::generator())], &g2);
    assert!(matches!(r, Err(ChipError::ConstraintViolation(Violation::FieldReduced))));
    let mut off = plain_g1(&bn256::G1Affine::generator());
    off.y = off.y + 1;
    let r = chip.bls_signature_verify(&g1, &vec![plain_g2(&bn256::G2Affine::generator())], &vec![off], &g2);
    assert!(matches!(r, Err(ChipError::ConstraintViolation(Violation::OnCurve))));
}

#[test]
fn chip_signs_as_halo2curves_does() {
    let fp_chip = bn254::fp_chip(90, 3, bn254_native()).unwrap();
    let pairing_chip = PairingChip::new(&fp_chip).unwrap();
    let chip = BlsSignatureChip::new(&fp_chip, &pairing_chip);
    let sk = bn256::Fr::random(OsRng);
    let scalar = BigInt::from_bytes_le(Sign::Plus, &sk.to_bytes());
    let g1 = bn256::G1Affine::generator();
    let msg_hash = bn256::G2Affine::generator();
    let pubkey = chip.public_key(&plain_g1(&g1), &scalar).unwrap();
    let expected_key = plain_g1(&(g1 * sk).to_affine());
    assert_eq!((pubkey.x, pubkey.y), (expected_key.x, expected_key.y));
    let signature = chip.sign(&plain_g2(&msg_hash), &scalar).unwrap();
    let expected = plain_g2(&(msg_hash * sk).to_affine());
    assert_eq!(
        (signature.x.c0, signature.x.c1, signature.y.c0, signature.y.c1),
        (expected.x.c0, expected.x.c1, expected.y.c0, expected.y.c1)
    );
    let (signatures, pubkeys) = chip
        .signed_witnesses(&plain_g1(&g1), &plain_g2(&msg_hash), &vec![BigInt::from(5), BigInt::from(1)])
        .unwrap();
    assert_eq!(signatures.len(), 2);
    assert_eq!(pubkeys.len(), 2);
    let five_g = plain_g1(&(g1 * bn256::Fr::from(5)).to_affine());
    assert_eq!((&pubkeys[0].x, &pubkeys[0].y), (&five_g.x, &five_g.y));
    assert_eq!(pubkeys[1].x, BigInt::from(1));
    assert_eq!(pubkeys[1].y, BigInt::from(2));
    let mut wide = plain_g1(&g1);
    wide.x = BigInt::from(1) << 270;
    assert!(matches!(
        chip.public_key(&wide, &scalar),
        Err(ChipError::ConstraintViolation(Violation::FieldRange))
    ));
}

#[test]
fn signatures_of_the_chip_verify() {
    let fp_chip = bn254::fp_chip(256, 1, wide_native(600)).unwrap();
    let pairing_chip = PairingChip::new(&fp_chip).unwrap();
    let chip = BlsSignatureChip::new(&fp_chip, &pairing_chip);
    let g1 = plain_g1(&bn256::G1Affine::generator());
    let msg_hash = plain_g2(&bn256::G2Affine::generator());
    let secret_keys = vec![BigInt::from(123_456_789u64), BigInt::from(987_654_321u64) << 100];
    let outcome = chip.bls_signature_circuit(&g1, &msg_hash, &secret_keys).unwrap();
    assert!(outcome.is_identity);
    assert!(matches!(
        chip.bls_signature_circuit(&g1, &msg_hash, &vec![]),
        Err(ChipError::InputShape)
    ));
}
