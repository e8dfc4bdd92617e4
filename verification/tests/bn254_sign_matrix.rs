use bls_chips::bn254::bls_signature_test::{BlsSignatureChipSeparateTest, BlsSignatureChipTest};
use bls_chips::bn254::pairing::PairingChip;
use bls_chips::bn254;
use bls_chips::curves::{Fq2, G1Affine, G2Affine};
use bls_chips::errors::{ChipError, Violation};
use ff::Field;
use group::Curve;
use group::Group;
use halo2curves::bn256;
use halo2curves::pairing::MillerLoopResult;
use num_bigint::{BigInt, Sign};
use rand_core::OsRng;

// The scalar field of BN254 is the native field of the circuits.
fn bn254_native() -> BigInt {
    bls_chips::bn254::order()
}

// An odd modulus of the given number of bits, for a native field that is wide
// enough for limbs of any size.
fn wide_native(bits: usize) -> BigInt {
    (BigInt::from(1) << bits) - 1
}

fn big(x: &bn256::Fq) -> BigInt {
    BigInt::from_bytes_le(Sign::Plus, &x.to_bytes())
}

fn plain_g1(p: &bn256::G1Affine) -> G1Affine {
    G1Affine { x: big(&p.x), y: big(&p.y) }
}

fn plain_g2(q: &bn256::G2Affine) -> G2Affine {
    G2Affine {
        x: Fq2 { c0: big(q.x.c0()), c1: big(q.x.c1()) },
        y: Fq2 { c0: big(q.y.c0()), c1: big(q.y.c1()) },
    }
}

// A key pair with its signature on the generator of the twist as the hashed message.
fn signed() -> (bn256::G1Affine, bn256::G2Affine, bn256::G1Affine, bn256::G2Affine) {
    let sk = bn256::Fr::random(OsRng);
    let g1 = bn256::G1Affine::generator();
    let pubkey = (g1 * sk).to_affine();
    let msg_hash = bn256::G2Affine::generator();
    let signature = (msg_hash * sk).to_affine();
    (g1, signature, pubkey, msg_hash)
}

#[test]
fn test_2_bls_signature_test_3() {
    // One limb keeps the final exponentiations short.
    let fp_chip_1 = bn254::fp_chip(256, 1, wide_native(600)).unwrap();
    let pairing_chip = PairingChip::new(&fp_chip_1).unwrap();
    let chip = BlsSignatureChipTest::new(&fp_chip_1, &pairing_chip);
    let (g1, signature, pubkey, msg_hash) = signed();
    let actual_result =
        bn256::multi_miller_loop(&[(&g1, &signature), (&pubkey, &(-msg_hash))])
            .final_exponentiation();
    assert_eq!(bn256::Gt::identity(), actual_result);
    let answers = chip
        .bls_signature_verify_test(
            &plain_g1(&g1),
            &plain_g2(&signature),
            &plain_g1(&pubkey),
            &plain_g2(&msg_hash),
        )
        .unwrap();
    assert_eq!(answers, vec![false, true, true, true, true, true, true]);
}

#[test]
fn sign_matrix_refuses_a_witness_off_the_curve() {
    let fp_chip = bn254::fp_chip(90, 3, bn254_native()).unwrap();
    let pairing_chip = PairingChip::new(&fp_chip).unwrap();
    let chip = BlsSignatureChipTest::new(&fp_chip, &pairing_chip);
    let (g1, signature, pubkey, msg_hash) = signed();
    let mut bad = plain_g1(&pubkey);
    bad.x = bad.x + 1;
    let r = chip.bls_signature_verify_test(
        &plain_g1(&g1),
        &plain_g2(&signature),
        &bad,
        &plain_g2(&msg_hash),
    );
    assert!(matches!(r, Err(ChipError::ConstraintViolation(Violation::OnCurve))));
}

#[test]
fn product_with_both_signs_flipped_is_not_one() {
    let fp_chip = bn254::fp_chip(90, 3, bn254_native()).unwrap();
    let pairing_chip = PairingChip::new(&fp_chip).unwrap();
    let chip = BlsSignatureChipTest::new(&fp_chip, &pairing_chip);
    let (g1, signature, pubkey, msg_hash) = signed();
    let g1_assigned = pairing_chip.load_private_g1(&plain_g1(&g1)).unwrap();
    let pubkey_assigned = pairing_chip.load_private_g1(&plain_g1(&pubkey)).unwrap();
    let neg_signature = pairing_chip.load_private_g2(&plain_g2(&(-signature))).unwrap();
    let neg_hash = pairing_chip.load_private_g2(&plain_g2(&(-msg_hash))).unwrap();
    // Two negations cancel: e(g1, -s) e(k, -h) = (e(g1, s) e(k, h))^(-1), which is not one.
    let both = chip.product_of(&g1_assigned, &neg_signature, &pubkey_assigned, &neg_hash).unwrap();
    assert!(!both);
}

#[test]
fn witness_negation_reduces_the_coordinate() {
    let fp_chip = bn254::fp_chip(90, 3, bn254_native()).unwrap();
    let g2 = plain_g2(&bn256::G2Affine::generator());
    let negated = g2.negated(&fp_chip.p);
    let expected = plain_g2(&(-bn256::G2Affine::generator()));
    assert_eq!(negated.x.c0, expected.x.c0);
    assert_eq!(negated.x.c1, expected.x.c1);
    assert_eq!(negated.y.c0, expected.y.c0);
    assert_eq!(negated.y.c1, expected.y.c1);
    assert_eq!(&negated.y.c0 + &g2.y.c0, fp_chip.p);
}

#[test]
fn test_2_bls_signature_separate_test() {
    let fp_chip = bn254::fp_chip(256, 1, wide_native(600)).unwrap();
    let pairing_chip_1 = PairingChip::new(&fp_chip).unwrap();
    let pairing_chip_2 = PairingChip::new(&fp_chip).unwrap();
    let chip = BlsSignatureChipSeparateTest::new(&fp_chip, &pairing_chip_1, &pairing_chip_2);
    let (g1, signature, pubkey, msg_hash) = signed();
    let pairing_1 = bn256::multi_miller_loop(&[(&g1, &signature)]).final_exponentiation();
    let pairing_2 = bn256::multi_miller_loop(&[(&pubkey, &msg_hash)]).final_exponentiation();
    assert_eq!(format!("{pairing_1:?}"), format!("{pairing_2:?}"));
    let accepted = chip
        .bls_signature_verify_separate_test(
            &plain_g1(&g1),
            &plain_g2(&signature),
            &plain_g1(&pubkey),
            &plain_g2(&msg_hash),
        )
        .unwrap();
    assert!(accepted);
}

#[test]
fn separate_pairings_of_a_forged_signature() {
    let fp_chip = bn254::fp_chip(256, 1, wide_native(600)).unwrap();
    let pairing_chip_1 = PairingChip::new(&fp_chip).unwrap();
    let pairing_chip_2 = PairingChip::new(&fp_chip).unwrap();
    let chip = BlsSignatureChipSeparateTest::new(&fp_chip, &pairing_chip_1, &pairing_chip_2);
    let (g1, signature, pubkey, msg_hash) = signed();
    let forged = (signature + msg_hash).to_affine();
    let rejected = chip
        .bls_signature_verify_separate_test(
            &plain_g1(&g1),
            &plain_g2(&forged),
            &plain_g1(&pubkey),
            &plain_g2(&msg_hash),
        )
        .unwrap();
    assert!(!rejected);
}

#[test]
fn separate_pairings_refuse_a_witness_off_the_curve() {
    let fp_chip = bn254::fp_chip(90, 3, bn254_native()).unwrap();
    let pairing_chip_1 = PairingChip::new(&fp_chip).unwrap();
    let pairing_chip_2 = PairingChip::new(&fp_chip).unwrap();
    let chip = BlsSignatureChipSeparateTest::new(&fp_chip, &pairing_chip_1, &pairing_chip_2);
    let (g1, signature, pubkey, msg_hash) = signed();
    let mut bad = plain_g2(&signature);
    bad.x.c1 = bad.x.c1 + 1;
    let r = chip.bls_signature_verify_separate_test(
        &plain_g1(&g1),
        &bad,
        &plain_g1(&pubkey),
        &plain_g2(&msg_hash),
    );
    assert!(matches!(r, Err(ChipError::ConstraintViolation(Violation::OnCurve))));
}

#[test]
fn test_2_bls_signature_test_2() {
    let fp_chip_1 = bn254::fp_chip(256, 1, wide_native(600)).unwrap();
    let pairing_chip = PairingChip::new(&fp_chip_1).unwrap();
    let (g1, signature, pubkey, msg_hash) = signed();
    let g1_assigned = pairing_chip.load_private_g1(&plain_g1(&g1)).unwrap();
    let signature_assigned = pairing_chip.load_private_g2(&plain_g2(&signature)).unwrap();
    let pubkey_assigned = pairing_chip.load_private_g1(&plain_g1(&pubkey)).unwrap();
    let hash_m_assigned = pairing_chip.load_private_g2(&plain_g2(&msg_hash)).unwrap();
    let neg_hash_m_assigned = pairing_chip.load_private_g2(&plain_g2(&(-msg_hash))).unwrap();
    let fp12_chip = pairing_chip.miller().fp12();
    let one = fp12_chip.one();
    let result_1 = pairing_chip
        .multi_miller_loop(&vec![
            (&g1_assigned, &signature_assigned),
            (&pubkey_assigned, &hash_m_assigned),
        ])
        .unwrap();
    let result_1b = pairing_chip.final_exp(&result_1);
    assert!(!fp12_chip.is_equal(&result_1b, &one));
    let result_3 = pairing_chip
        .multi_miller_loop(&vec![
            (&g1_assigned, &signature_assigned),
            (&pubkey_assigned, &neg_hash_m_assigned),
        ])
        .unwrap();
    let result_3b = pairing_chip.final_exp(&result_3);
    assert!(fp12_chip.is_equal(&result_3b, &one));

    let actual_result =
        bn256::multi_miller_loop(&[(&g1, &signature), (&pubkey, &(-msg_hash))])
            .final_exponentiation();
    let one = bn256::Gt::identity();
    assert_eq!(one, actual_result);
}
