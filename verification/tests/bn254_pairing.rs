use bls_chips::bn254::pairing::PairingChip;
use bls_chips::bn254;
use bls_chips::curves::{Fq2, G1Affine, G2Affine};
use halo2curves::bn256;
use halo2curves::pairing::MillerLoopResult;
use num_bigint::{BigInt, Sign};

// The scalar field of BN254 is the native field of the circuits.
fn bn254_native() -> BigInt {
    bls_chips::bn254::order()
}

fn fq_to_big(x: &bn256::Fq) -> BigInt {
    BigInt::from_bytes_le(Sign::Plus, &x.to_bytes())
}

fn g1_to_plain(p: &bn256::G1Affine) -> G1Affine {
    G1Affine { x: fq_to_big(&p.x), y: fq_to_big(&p.y) }
}

fn g2_to_plain(q: &bn256::G2Affine) -> G2Affine {
    G2Affine {
        x: Fq2 { c0: fq_to_big(q.x.c0()), c1: fq_to_big(q.x.c1()) },
        y: Fq2 { c0: fq_to_big(q.y.c0()), c1: fq_to_big(q.y.c1()) },
    }
}

#[test]
fn pairing_of_generators_matches_halo2curves() {
    let fp_chip = bn254::fp_chip(90, 3, bn254_native()).unwrap();
    let chip = PairingChip::new(&fp_chip).unwrap();
    let g1 = bn256::G1Affine::generator();
    let g2 = bn256::G2Affine::generator();
    let p = chip.load_private_g1(&g1_to_plain(&g1)).unwrap();
    let q = chip.load_private_g2(&g2_to_plain(&g2)).unwrap();
    let e = chip.pairing(&q, &p).unwrap();
    let got: Vec<BigInt> = e.0.iter().map(|c| c.0.value.clone()).collect();
    let expected = bn256::multi_miller_loop(&[(&g1, &g2)]).final_exponentiation();
    let want = format!("Gt({})", fq12_from_debug(&got));
    assert_eq!(format!("{:?}", expected), want);
}

// Writes twelve coefficients the way `halo2curves` prints its elements.
fn fq12_from_debug(c: &[BigInt]) -> String {
    let two = |i: usize| format!("QuadExtField {{ c0: 0x{:064x}, c1: 0x{:064x} }}", c[i], c[i + 6]);
    let six = |a: usize| {
        format!(
            "CubicExtField {{ c0: {}, c1: {}, c2: {} }}",
            two(a),
            two(a + 2),
            two(a + 4)
        )
    };
    format!("QuadExtField {{ c0: {}, c1: {} }}", six(0), six(1))
}
