use bls_chips::bn254::pairing::PairingChip;
use bls_chips::bn254;
use bls_chips::curves::{Fq2, G1Affine, G2Affine};
use bls_chips::ecc::{get_naf, EcPoint, EccChip};
use bls_chips::errors::{ChipError, Violation};
use bls_chips::fields::fp12::Fp12Chip;
use bls_chips::fields::fp2::Fp2Chip;
use bls_chips::fields::FieldChip;
use bls_chips::fields::fp::{FieldElement, FpChip};
use bls_chips::fields::vector::FieldVector;
use ff::Field;
use rand_core::OsRng;
use group::Curve;
use halo2curves::bn256;
use num_bigint::{BigInt, Sign};

// The scalar field of BN254 is the native field of the circuits.
fn bn254_native() -> BigInt {
    bls_chips::bn254::order()
}

fn big(x: &bn256::Fq) -> BigInt {
    BigInt::from_bytes_le(Sign::Plus, &x.to_bytes())
}

fn load_g1(chip: &PairingChip, p: &bn256::G1Affine) -> EcPoint<FieldElement> {
    chip.load_private_g1(&G1Affine { x: big(&p.x), y: big(&p.y) }).unwrap()
}

fn load_g2(chip: &PairingChip, q: &bn256::G2Affine) -> EcPoint<FieldVector> {
    chip.load_private_g2(&G2Affine {
        x: Fq2 { c0: big(q.x.c0()), c1: big(q.x.c1()) },
        y: Fq2 { c0: big(q.y.c0()), c1: big(q.y.c1()) },
    })
    .unwrap()
}

fn same_g1(got: &EcPoint<FieldElement>, want: &bn256::G1Affine) -> bool {
    got.x.0.value == big(&want.x) && got.y.0.value == big(&want.y)
}

fn same_g2(got: &EcPoint<FieldVector>, want: &bn256::G2Affine) -> bool {
    got.x.0[0].0.value == big(want.x.c0())
        && got.x.0[1].0.value == big(want.x.c1())
        && got.y.0[0].0.value == big(want.y.c0())
        && got.y.0[1].0.value == big(want.y.c1())
}

#[test]
fn points_of_the_base_curve_add_and_double() {
    let fp_chip = bn254::fp_chip(90, 3, bn254_native()).unwrap();
    let pairing = PairingChip::new(&fp_chip).unwrap();
    let ecc: EccChip<FpChip> = EccChip::new(&fp_chip);
    let g = bn256::G1Affine::generator();
    let two_g = (g + g).to_affine();
    let three_g = (two_g + g).to_affine();
    let p = load_g1(&pairing, &g);
    let doubled = ecc.double(&p).unwrap();
    assert!(same_g1(&doubled, &two_g));
    // The generator is (1, 2); its double has x = (3 / 4)^2 - 2 = 9 / 16 - 2.
    let sixteen = fp_chip.load_constant(&BigInt::from(16));
    let sixteen_x = fp_chip.mul(&doubled.x, &sixteen);
    assert_eq!(sixteen_x.0.value, fp_chip.load_constant(&BigInt::from(9 - 32)).0.value);
    let sum = ecc.add_unequal(&doubled, &p, true).unwrap();
    assert!(same_g1(&sum, &three_g));
    let lazy_sum = ecc.add_unequal(&doubled, &p, false).unwrap();
    assert!(same_g1(&lazy_sum, &three_g));
    assert!(same_g1(&ecc.negate(&p), &(-g)));
    assert!(ecc.is_equal(&sum, &lazy_sum));
    assert!(!ecc.is_equal(&sum, &p));
    assert!(same_g1(&ecc.duplicate(&sum), &three_g));
}

#[test]
fn multiples_match_halo2curves() {
    let fp_chip = bn254::fp_chip(90, 3, bn254_native()).unwrap();
    let pairing = PairingChip::new(&fp_chip).unwrap();
    let ecc: EccChip<FpChip> = EccChip::new(&fp_chip);
    let fp2 = Fp2Chip::new(&fp_chip).unwrap();
    let ecc2: EccChip<Fp2Chip> = EccChip::new(&fp2);
    let g = bn256::G1Affine::generator();
    let h = bn256::G2Affine::generator();
    let p = load_g1(&pairing, &g);
    let q = load_g2(&pairing, &h);
    for k in [1u64, 2, 3, 6, 7, 1000, bn254::BN_X, u64::MAX] {
        let want = (g * bn256::Fr::from(k)).to_affine();
        assert!(same_g1(&ecc.scalar_mul(&p, k).unwrap(), &want), "multiple {}", k);
        let want2 = (h * bn256::Fr::from(k)).to_affine();
        assert!(same_g2(&ecc2.scalar_mul(&q, k).unwrap(), &want2), "multiple {}", k);
    }
}

#[test]
fn equal_x_coordinates_fail_the_sum() {
    let fp_chip = bn254::fp_chip(90, 3, bn254_native()).unwrap();
    let pairing = PairingChip::new(&fp_chip).unwrap();
    let ecc: EccChip<FpChip> = EccChip::new(&fp_chip);
    let g = bn256::G1Affine::generator();
    let p = load_g1(&pairing, &g);
    let minus_p = ecc.negate(&p);
    assert!(matches!(
        ecc.add_unequal(&p, &p, true),
        Err(ChipError::ConstraintViolation(Violation::DistinctX))
    ));
    assert!(matches!(
        ecc.add_unequal(&p, &minus_p, true),
        Err(ChipError::ConstraintViolation(Violation::DistinctX))
    ));
    assert!(matches!(
        ecc.add_unequal(&p, &p, false),
        Err(ChipError::ConstraintViolation(Violation::Divisor))
    ));
}

#[test]
fn curve_equation_is_checked() {
    let fp_chip = bn254::fp_chip(90, 3, bn254_native()).unwrap();
    let pairing = PairingChip::new(&fp_chip).unwrap();
    let ecc: EccChip<FpChip> = EccChip::new(&fp_chip);
    let b = fp_chip.load_constant(&BigInt::from(3));
    let on = pairing
        .load_private_g1_unchecked(&G1Affine { x: BigInt::from(1), y: BigInt::from(2) })
        .unwrap();
    assert!(ecc.is_on_curve(&b, &on));
    assert!(ecc.assert_is_on_curve(&b, &on).is_ok());
    let off = pairing
        .load_private_g1_unchecked(&G1Affine { x: BigInt::from(1), y: BigInt::from(3) })
        .unwrap();
    assert!(!ecc.is_on_curve(&b, &off));
    assert!(matches!(
        ecc.assert_is_on_curve(&b, &off),
        Err(ChipError::ConstraintViolation(Violation::OnCurve))
    ));
    assert!(matches!(
        pairing.load_private_g1(&G1Affine { x: BigInt::from(1), y: BigInt::from(3) }),
        Err(ChipError::ConstraintViolation(Violation::OnCurve))
    ));
    assert!(matches!(
        pairing.load_private_g1(&G1Affine { x: BigInt::from(1) << 270, y: BigInt::from(3) }),
        Err(ChipError::ConstraintViolation(Violation::FieldRange))
    ));
    let loaded = ecc
        .load_private_unchecked(&vec![BigInt::from(1)], &vec![BigInt::from(2)])
        .unwrap();
    assert!(ecc.is_on_curve(&b, &loaded));
    assert!(matches!(
        ecc.load_private_unchecked(&vec![BigInt::from(-1)], &vec![BigInt::from(2)]),
        Err(ChipError::ConstraintViolation(Violation::FieldRange))
    ));
}

#[test]
fn non_adjacent_form() {
    assert_eq!(get_naf(0), Vec::<i8>::new());
    assert_eq!(get_naf(1), vec![1]);
    assert_eq!(get_naf(3), vec![-1, 0, 1]);
    assert_eq!(get_naf(7), vec![-1, 0, 0, 1]);
    assert_eq!(get_naf(10), vec![0, 1, 0, 1]);
    let digits = get_naf(6 * (bn254::BN_X as u128) + 2);
    let mut value: i128 = 0;
    for (i, d) in digits.iter().enumerate() {
        value += (*d as i128) << i;
        if i > 0 {
            assert!(*d == 0 || digits[i - 1] == 0);
        }
    }
    assert_eq!(value, 6 * (bn254::BN_X as i128) + 2);
    assert_eq!(digits.len(), 66);
    assert_eq!(digits[65], 1);
}

#[test]
fn multiples_by_large_scalars_match_halo2curves() {
    let fp_chip = bn254::fp_chip(90, 3, bn254_native()).unwrap();
    let pairing = PairingChip::new(&fp_chip).unwrap();
    let ecc: EccChip<FpChip> = EccChip::new(&fp_chip);
    let g = bn256::G1Affine::generator();
    let p = load_g1(&pairing, &g);
    let scalar = bn256::Fr::from(0x1234_5678_9abc_def0u64).square() + bn256::Fr::from(77);
    let k = BigInt::from_bytes_le(Sign::Plus, &scalar.to_bytes());
    assert!(k > BigInt::from(u64::MAX));
    let want = (g * scalar).to_affine();
    assert!(same_g1(&ecc.scalar_mult(&p, &k).unwrap(), &want));
    assert!(same_g1(&ecc.scalar_mult(&p, &BigInt::from(1)).unwrap(), &g));
    assert!(same_g1(&ecc.scalar_mult(&p, &BigInt::from(5)).unwrap(), &(g * bn256::Fr::from(5)).to_affine()));
}

#[test]
fn sum_of_multiples_of_fixed_bases() {
    let fp_chip = bn254::fp_chip(90, 3, bn254_native()).unwrap();
    let ecc: EccChip<FpChip> = EccChip::new(&fp_chip);
    let g = bn256::G1Affine::generator();
    let h = (g * bn256::Fr::from(1000)).to_affine();
    let bases = vec![
        (vec![big(&g.x)], vec![big(&g.y)]),
        (vec![big(&h.x)], vec![big(&h.y)]),
        (vec![big(&g.x) + &fp_chip.p], vec![big(&g.y)]),
    ];
    let scalars = vec![BigInt::from(3), BigInt::from(5), BigInt::from(11)];
    let want = (g * bn256::Fr::from(3 + 5000 + 11)).to_affine();
    assert!(same_g1(&ecc.fixed_base_msm(&bases, &scalars).unwrap(), &want));
    assert!(matches!(
        ecc.fixed_base_msm(&bases, &vec![BigInt::from(3)]),
        Err(ChipError::InputShape)
    ));
    assert!(matches!(ecc.fixed_base_msm(&vec![], &vec![]), Err(ChipError::InputShape)));
    // [3] g + [3] g meets two equal points.
    let twice = vec![(vec![big(&g.x)], vec![big(&g.y)]), (vec![big(&g.x)], vec![big(&g.y)])];
    assert!(matches!(
        ecc.fixed_base_msm(&twice, &vec![BigInt::from(3), BigInt::from(3)]),
        Err(ChipError::ConstraintViolation(Violation::DistinctX))
    ));
}

// The image of a point of the twist on the curve over the degree-twelve field:
// (x, y) -> (x w^2, y w^3).
fn untwist(fp12: &Fp12Chip, q: &bn256::G2Affine) -> EcPoint<FieldVector> {
    let zero = BigInt::from(0);
    let mut x = vec![zero.clone(); 12];
    x[2] = big(q.x.c0());
    x[8] = big(q.x.c1());
    let mut y = vec![zero; 12];
    y[3] = big(q.y.c0());
    y[9] = big(q.y.c1());
    let ecc: EccChip<Fp12Chip> = EccChip::new(fp12);
    ecc.load_private_unchecked(&x, &y).unwrap()
}

#[test]
fn curve_over_the_degree_twelve_field() {
    let fp_chip = bn254::fp_chip(90, 3, bn254_native()).unwrap();
    let fp12 = Fp12Chip::new(&fp_chip, bn254::XI_0).unwrap();
    let ecc: EccChip<Fp12Chip> = EccChip::new(&fp12);
    let mut three = vec![BigInt::from(0); 12];
    three[0] = BigInt::from(3);
    let b = fp12.load_constant(&three);
    let q = bn256::G2Affine::generator();
    let two_q = (q + q).to_affine();
    let three_q = (two_q + q).to_affine();
    let lifted = untwist(&fp12, &q);
    assert!(ecc.is_on_curve(&b, &lifted));
    // Untwisting is a homomorphism.
    let doubled = ecc.double(&lifted).unwrap();
    assert!(ecc.is_equal(&doubled, &untwist(&fp12, &two_q)));
    let sum = ecc.add_unequal(&doubled, &lifted, true).unwrap();
    assert!(ecc.is_equal(&sum, &untwist(&fp12, &three_q)));
    assert!(ecc.is_equal(&ecc.negate(&lifted), &untwist(&fp12, &(-q))));
    assert!(ecc.is_equal(&ecc.scalar_mul(&lifted, 3).unwrap(), &sum));
}

#[test]
fn test_fixed_base_msm() {
    let fp_chip = bn254::fp_chip(88, 3, bn254_native()).unwrap();
    let ecc_chip: EccChip<FpChip> = EccChip::new(&fp_chip);
    let batch_size = 4;
    let bases: Vec<bn256::G1Affine> =
        (0..batch_size).map(|_| bn256::G1Affine::random(OsRng)).collect();
    let scalars: Vec<bn256::Fr> = (0..batch_size).map(|_| bn256::Fr::random(OsRng)).collect();

    let plain_bases: Vec<(Vec<BigInt>, Vec<BigInt>)> =
        bases.iter().map(|b| (vec![big(&b.x)], vec![big(&b.y)])).collect();
    let plain_scalars: Vec<BigInt> =
        scalars.iter().map(|s| BigInt::from_bytes_le(Sign::Plus, &s.to_bytes())).collect();
    let msm = ecc_chip.fixed_base_msm(&plain_bases, &plain_scalars).unwrap();

    let mut elts: Vec<bn256::G1> = Vec::new();
    for (base, scalar) in bases.iter().zip(scalars.iter()) {
        elts.push(base * scalar);
    }
    let msm_answer = elts.into_iter().reduce(|a, b| a + b).unwrap().to_affine();

    assert_eq!(msm.x.0.value, big(&msm_answer.x));
    assert_eq!(msm.y.0.value, big(&msm_answer.y));
}
