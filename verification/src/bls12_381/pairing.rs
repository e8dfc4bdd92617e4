//! The optimal Ate pairing on BLS12-381: the Miller loop along the chain
//! of `|x|`, the conjugation that accounts for the sign of `x`, and the
//! final exponentiation.

use crate::bigint::big_values;
use crate::bignum::{big_clone, big_div_euclid, big_eq, big_from_u64, big_mul, big_sub, big_value};
use crate::bls12_381::{base_modulus, group_order, modulus, order, BLS_X, XI_0};
use crate::curves::{G1Affine, G2Affine};
use crate::ecc::{curve_holds, digit_values, get_naf, lemma_naf, naf, EcPoint, EccChip};
use crate::errors::{ChipError, Violation};
use crate::fields::fp12::{fp12_conjugate, fp12_pow};
use crate::fields::fp2::{fp2_conjugate, fp2_mul, fp2_pow};
use crate::fields::fp::{FieldElement, FpChip};
use crate::fields::vector::{FieldVector, FieldVectorChip};
use crate::limbs::bit_length;
use crate::pairing::{
    g1_value, g1_values, g2_value, g2_values, pair_g1_values, pair_g2_values, MillerLoopChip,
};
use num_bigint::BigInt;
use vstd::arithmetic::power::*;
use vstd::prelude::*;

verus! {

/// The sixth power of `w`: `xi = 1 + u`.
pub open spec fn xi() -> Seq<int> {
    seq![1int, 1int]
}

/// The factor of the x coordinate in the Frobenius map of the twist:
/// the inverse of `xi^((p - 1) / 3)`, as the power
/// `p^2 - 1 - (p - 1) / 3` of `xi`.
#[verifier::opaque]
pub open spec fn frobenius_x_coeff() -> Seq<int> {
    fp2_pow(
        base_modulus(),
        xi(),
        (base_modulus() * base_modulus() - 1 - (base_modulus() - 1) / 3) as nat,
    )
}

/// The factor of the y coordinate in the Frobenius map of the twist:
/// the inverse of `xi^((p - 1) / 2)`, as the power
/// `p^2 - 1 - (p - 1) / 2` of `xi`.
#[verifier::opaque]
pub open spec fn frobenius_y_coeff() -> Seq<int> {
    fp2_pow(
        base_modulus(),
        xi(),
        (base_modulus() * base_modulus() - 1 - (base_modulus() - 1) / 2) as nat,
    )
}

/// The exponent of the final exponentiation: `(p^12 - 1) / r`.
#[verifier::opaque]
pub open spec fn final_exponent() -> int {
    (pow(base_modulus(), 12) - 1) / group_order()
}

/// The number whose chain the Miller loop follows: `|x|`.
#[verifier::opaque]
pub open spec fn loop_count() -> nat {
    BLS_X as nat
}

/// The constant of the twist `y^2 = x^3 + 4 xi`.
pub open spec fn twist_constant() -> Seq<int> {
    seq![4int, 4int]
}

/// The image of a point of the twist under the Frobenius map of the curve,
/// carried over to the twist: `(x, y) -> (c_x conj(x), c_y conj(y))`.
pub open spec fn twisted_frobenius(q: (Seq<int>, Seq<int>)) -> (Seq<int>, Seq<int>) {
    let p = base_modulus();
    (
        fp2_mul(p, frobenius_x_coeff(), fp2_conjugate(p, q.0)),
        fp2_mul(p, frobenius_y_coeff(), fp2_conjugate(p, q.1)),
    )
}

/// The chip of the pairing over the field of `fp_chip`, with the constants
/// of the curve loaded.
pub struct PairingChip<'a> {
    pub fp_chip: &'a FpChip,
    pub loop_digits: Vec<i8>,
    pub frobenius_x: FieldVector,
    pub frobenius_y: FieldVector,
    pub final_exponent: BigInt,
    pub b: FieldElement,
    pub twist_b: FieldVector,
}

impl<'a> PairingChip<'a> {
    /// The chip that runs the Miller loop.
    pub open spec fn miller_spec(&self) -> MillerLoopChip<'a> {
        MillerLoopChip { fp_chip: self.fp_chip, xi_0: XI_0, m_twist: true }
    }

    /// The chip is set up over the base field of the curve and holds the
    /// constants of the curve.
    pub open spec fn wf(&self) -> bool {
        &&& self.fp_chip.wf()
        &&& self.fp_chip.modulus() == base_modulus()
        &&& digit_values(self.loop_digits@) == naf(loop_count())
        &&& self.frobenius_x@ == frobenius_x_coeff()
        &&& self.frobenius_y@ == frobenius_y_coeff()
        &&& self.miller_spec().fp2_spec().point_wf(&self.frobenius_x)
        &&& self.miller_spec().fp2_spec().point_wf(&self.frobenius_y)
        &&& big_value(self.final_exponent) == final_exponent()
        &&& self.b@ == 4
        &&& self.b.wf(self.fp_chip)
        &&& self.twist_b@ == twist_constant()
        &&& self.miller_spec().fp2_spec().point_wf(&self.twist_b)
    }

    /// The chip that runs the Miller loop.
    pub fn miller(&self) -> (r: MillerLoopChip<'a>)
        requires
            self.fp_chip.wf(),
            self.fp_chip.modulus() == base_modulus(),
        ensures
            r == self.miller_spec(),
            r.wf(),
    {
        proof {
            assert(bit_length(1) == 1) by {
                reveal_with_fuel(bit_length, 3);
            }
        }
        MillerLoopChip { fp_chip: self.fp_chip, xi_0: XI_0, m_twist: true }
    }

    /// Sets up the pairing over `fp_chip`, which must be the base field of
    /// the curve.
    pub fn new(fp_chip: &'a FpChip) -> (r: Result<Self, ChipError>)
        requires
            fp_chip.wf(),
        ensures
            r is Ok <==> fp_chip.modulus() == base_modulus(),
            match r {
                Ok(chip) => chip.wf() && chip.fp_chip == fp_chip,
                Err(e) => e == ChipError::UnsupportedModulus,
            },
    {
        let p = modulus();
        if !big_eq(&fp_chip.p, &p) {
            return Err(ChipError::UnsupportedModulus);
        }
        proof {
            reveal(loop_count);
            reveal(frobenius_x_coeff);
            reveal(frobenius_y_coeff);
            reveal(final_exponent);
            assert(bit_length(1) == 1) by {
                reveal_with_fuel(bit_length, 3);
            }
        }
        let miller = MillerLoopChip { fp_chip, xi_0: XI_0, m_twist: true };
        let fp2 = miller.fp2();
        let vectors = FieldVectorChip::new(fp_chip);
        let xi_coeffs: Vec<BigInt> = vec![big_from_u64(1), big_from_u64(1)];
        let xi_point = vectors.load_constant(&xi_coeffs);
        assert(xi_point@ =~= xi()) by {
            assert(big_values(xi_coeffs@)[0] == 1 && big_values(xi_coeffs@)[1] == 1);
        }
        let one = big_from_u64(1);
        let p_minus_one = big_sub(&p, &one);
        let unit_order = big_sub(&big_mul(&p, &p), &one);
        let third = big_sub(&unit_order, &big_div_euclid(&p_minus_one, &big_from_u64(3)));
        let half = big_sub(&unit_order, &big_div_euclid(&p_minus_one, &big_from_u64(2)));
        let frobenius_x = fp2.pow(&xi_point, &third);
        let frobenius_y = fp2.pow(&xi_point, &half);
        let loop_digits = get_naf(BLS_X as u128);
        let mut power = big_clone(&p);
        let mut i: usize = 1;
        proof {
            lemma_pow1(base_modulus());
        }
        while i < 12
            invariant
                1 <= i <= 12,
                big_value(p) == base_modulus(),
                big_value(power) == pow(base_modulus(), i as nat),
            decreases 12 - i,
        {
            proof {
                lemma_pow_adds(base_modulus(), i as nat, 1);
                lemma_pow1(base_modulus());
            }
            power = big_mul(&power, &p);
            i = i + 1;
        }
        let final_exponent = big_div_euclid(&big_sub(&power, &one), &order());
        let b = fp_chip.load_constant(&big_from_u64(4));
        let four_coeffs: Vec<BigInt> = vec![big_from_u64(4), big_from_u64(4)];
        let twist_b = vectors.load_constant(&four_coeffs);
        assert(twist_b@ =~= twist_constant()) by {
            assert(big_values(four_coeffs@)[0] == 4 && big_values(four_coeffs@)[1] == 4);
        }
        Ok(
            PairingChip {
                fp_chip,
                loop_digits,
                frobenius_x,
                frobenius_y,
                final_exponent,
                b,
                twist_b,
            },
        )
    }

    /// Loads a point of the base curve under the range check of the limbs,
    /// without asking that it be on the curve.
    pub fn load_private_g1_unchecked(&self, point: &G1Affine) -> (r: Result<
        EcPoint<FieldElement>,
        ChipError,
    >)
        requires
            self.wf(),
        ensures
            r is Ok <==> 0 <= point@.0 < pow(self.fp_chip.base(), self.fp_chip.num_limbs as nat)
                && 0 <= point@.1 < pow(self.fp_chip.base(), self.fp_chip.num_limbs as nat),
            match r {
                Ok(pt) => g1_value(&pt) == point@ && self.miller_spec().g1_wf(&pt),
                Err(e) => e == ChipError::ConstraintViolation(Violation::FieldRange),
            },
    {
        let x = match self.fp_chip.load_witness(&point.x) {
            Ok(v) => v,
            Err(e) => {
                return Err(e);
            },
        };
        let y = match self.fp_chip.load_witness(&point.y) {
            Ok(v) => v,
            Err(e) => {
                return Err(e);
            },
        };
        Ok(EcPoint { x, y })
    }

    /// Whether a pair of integers is a point of the base curve.
    pub open spec fn g1_on_curve(&self, pt: (int, int)) -> bool {
        curve_holds(self.fp_chip, seq![4int], (seq![pt.0], seq![pt.1]))
    }

    /// Whether a pair of coefficient vectors is a point of the twist.
    pub open spec fn g2_on_curve(&self, q: (Seq<int>, Seq<int>)) -> bool {
        curve_holds(&self.miller_spec().fp2_spec(), twist_constant(), q)
    }

    /// Asserts that a loaded point is on the base curve.
    pub fn assert_g1_on_curve(&self, pt: &EcPoint<FieldElement>) -> (r: Result<(), ChipError>)
        requires
            self.wf(),
            self.miller_spec().g1_wf(pt),
        ensures
            r is Ok <==> self.g1_on_curve(g1_value(pt)),
            r matches Err(e) ==> e == ChipError::ConstraintViolation(Violation::OnCurve),
    {
        let g1 = EccChip::new(self.fp_chip);
        g1.assert_is_on_curve(&self.b, pt)
    }

    /// Asserts that a loaded point is on the twist.
    pub fn assert_g2_on_curve(&self, q: &EcPoint<FieldVector>) -> (r: Result<(), ChipError>)
        requires
            self.wf(),
            self.miller_spec().g2_wf(q),
        ensures
            r is Ok <==> self.g2_on_curve(g2_value(q)),
            r matches Err(e) ==> e == ChipError::ConstraintViolation(Violation::OnCurve),
    {
        let fp2 = self.miller().fp2();
        let g2 = EccChip::new(&fp2);
        g2.assert_is_on_curve(&self.twist_b, q)
    }

    /// Loads a point of the base curve and asserts that it is on the curve.
    pub fn load_private_g1(&self, point: &G1Affine) -> (r: Result<
        EcPoint<FieldElement>,
        ChipError,
    >)
        requires
            self.wf(),
        ensures
            r is Ok <==> 0 <= point@.0 < pow(self.fp_chip.base(), self.fp_chip.num_limbs as nat)
                && 0 <= point@.1 < pow(self.fp_chip.base(), self.fp_chip.num_limbs as nat)
                && self.g1_on_curve(point@),
            match r {
                Ok(pt) => g1_value(&pt) == point@ && self.miller_spec().g1_wf(&pt),
                Err(e) => e == ChipError::ConstraintViolation(
                    if 0 <= point@.0 < pow(self.fp_chip.base(), self.fp_chip.num_limbs as nat)
                        && 0 <= point@.1 < pow(
                        self.fp_chip.base(),
                        self.fp_chip.num_limbs as nat,
                    ) {
                        Violation::OnCurve
                    } else {
                        Violation::FieldRange
                    },
                ),
            },
    {
        let pt = match self.load_private_g1_unchecked(point) {
            Ok(v) => v,
            Err(e) => {
                return Err(e);
            },
        };
        match self.assert_g1_on_curve(&pt) {
            Ok(()) => Ok(pt),
            Err(e) => Err(e),
        }
    }

    /// Whether the four coefficients of a point of the twist pass the range
    /// check of the limbs.
    pub open spec fn g2_in_range(&self, q: (Seq<int>, Seq<int>)) -> bool {
        let span = pow(self.fp_chip.base(), self.fp_chip.num_limbs as nat);
        &&& 0 <= q.0[0] < span
        &&& 0 <= q.0[1] < span
        &&& 0 <= q.1[0] < span
        &&& 0 <= q.1[1] < span
    }

    /// Loads a point of the twist under the range check of the limbs,
    /// without asking that it be on the twist.
    pub fn load_private_g2_unchecked(&self, point: &G2Affine) -> (r: Result<
        EcPoint<FieldVector>,
        ChipError,
    >)
        requires
            self.wf(),
        ensures
            r is Ok <==> self.g2_in_range(point@),
            match r {
                Ok(q) => g2_value(&q) == point@ && self.miller_spec().g2_wf(&q),
                Err(e) => e == ChipError::ConstraintViolation(Violation::FieldRange),
            },
    {
        let fp = self.fp_chip;
        let fp2 = self.miller().fp2();
        let x0 = match fp.load_witness(&point.x.c0) {
            Ok(v) => v,
            Err(e) => {
                return Err(e);
            },
        };
        let x1 = match fp.load_witness(&point.x.c1) {
            Ok(v) => v,
            Err(e) => {
                return Err(e);
            },
        };
        let y0 = match fp.load_witness(&point.y.c0) {
            Ok(v) => v,
            Err(e) => {
                return Err(e);
            },
        };
        let y1 = match fp.load_witness(&point.y.c1) {
            Ok(v) => v,
            Err(e) => {
                return Err(e);
            },
        };
        let x = fp2.construct(x0, x1);
        let y = fp2.construct(y0, y1);
        Ok(EcPoint { x, y })
    }

    /// Loads a point of the twist and asserts that it is on the twist.
    pub fn load_private_g2(&self, point: &G2Affine) -> (r: Result<EcPoint<FieldVector>, ChipError>)
        requires
            self.wf(),
        ensures
            r is Ok <==> self.g2_in_range(point@) && self.g2_on_curve(point@),
            match r {
                Ok(q) => g2_value(&q) == point@ && self.miller_spec().g2_wf(&q),
                Err(e) => e == ChipError::ConstraintViolation(
                    if self.g2_in_range(point@) {
                        Violation::OnCurve
                    } else {
                        Violation::FieldRange
                    },
                ),
            },
    {
        let q = match self.load_private_g2_unchecked(point) {
            Ok(v) => v,
            Err(e) => {
                return Err(e);
            },
        };
        match self.assert_g2_on_curve(&q) {
            Ok(()) => Ok(q),
            Err(e) => Err(e),
        }
    }

    /// The image of a point of the twist under the Frobenius map.
    pub fn twisted_frobenius(&self, q: &EcPoint<FieldVector>) -> (r: EcPoint<FieldVector>)
        requires
            self.wf(),
            self.miller_spec().g2_wf(q),
        ensures
            g2_value(&r) == twisted_frobenius(g2_value(q)),
            self.miller_spec().g2_wf(&r),
    {
        let fp2 = self.miller().fp2();
        let conj_x = fp2.conjugate(&q.x);
        let conj_y = fp2.conjugate(&q.y);
        EcPoint { x: fp2.mul(&self.frobenius_x, &conj_x), y: fp2.mul(&self.frobenius_y, &conj_y) }
    }

    /// The product of the Miller functions of the pairs `(ps[j], qs[j])`,
    /// before the final exponentiation. The loop follows `|x|`; as `x` is
    /// negative its output is conjugated, which inverts it as far as the
    /// final exponentiation can tell.
    pub open spec fn multi_miller_loop_spec(
        &self,
        qs: Seq<(Seq<int>, Seq<int>)>,
        ps: Seq<(int, int)>,
    ) -> Result<Seq<int>, ChipError> {
        let digits = naf(loop_count());
        match self.miller_spec().miller_rounds(qs, ps, digits, (digits.len() - 1) as nat) {
            Err(e) => Err(e),
            Ok(s) => Ok(fp12_conjugate(base_modulus(), s.0)),
        }
    }

    /// The value of the final exponentiation: `f^((p^12 - 1) / r)`.
    pub open spec fn final_exp_spec(&self, f: Seq<int>) -> Seq<int> {
        fp12_pow(base_modulus(), XI_0 as int, f, final_exponent() as nat)
    }

    /// The pairing of each `ps[j]` with `qs[j]`, multiplied.
    pub open spec fn multi_pairing_spec(
        &self,
        qs: Seq<(Seq<int>, Seq<int>)>,
        ps: Seq<(int, int)>,
    ) -> Result<Seq<int>, ChipError> {
        match self.multi_miller_loop_spec(qs, ps) {
            Err(e) => Err(e),
            Ok(f) => Ok(self.final_exp_spec(f)),
        }
    }

    /// The outcome `r` is the outcome `m` of the mathematics: the same
    /// element of `Fp12` in carried form, or the same error.
    pub open spec fn fp12_agrees(
        &self,
        r: Result<FieldVector, ChipError>,
        m: Result<Seq<int>, ChipError>,
    ) -> bool {
        match r {
            Ok(f) => m is Ok && m->Ok_0 == f@ && f.wf(self.fp_chip) && f.0@.len() == 12,
            Err(e) => m is Err && m->Err_0 == e,
        }
    }

    /// The Miller loop over all pairs at once: one accumulator that is
    /// squared once per digit and takes up the lines of every pair.
    pub fn miller_loop_on(
        &self,
        qs: &Vec<EcPoint<FieldVector>>,
        ps: &Vec<EcPoint<FieldElement>>,
    ) -> (r: Result<FieldVector, ChipError>)
        requires
            self.wf(),
            qs@.len() == ps@.len(),
            self.miller_spec().g2_all_wf(qs@),
            self.miller_spec().g1_all_wf(ps@),
        ensures
            self.fp12_agrees(r, self.multi_miller_loop_spec(g2_values(qs@), g1_values(ps@))),
    {
        let miller = self.miller();
        let ghost qv = g2_values(qs@);
        let ghost pv = g1_values(ps@);
        proof {
            reveal(loop_count);
            lemma_naf(loop_count());
        }
        let (f, points) = match miller.miller_loop(qs, ps, &self.loop_digits) {
            Ok(s) => s,
            Err(e) => {
                return Err(e);
            },
        };
        Ok(miller.fp12().conjugate(&f))
    }

    /// The final exponentiation: the power `(p^12 - 1) / r` of the output
    /// of the Miller loop.
    pub fn final_exp(&self, f: &FieldVector) -> (r: FieldVector)
        requires
            self.wf(),
            f.wf(self.fp_chip),
            f.0@.len() == 12,
        ensures
            r@ == self.final_exp_spec(f@),
            r.wf(self.fp_chip),
            r.0@.len() == 12,
            r.reduced(self.fp_chip),
    {
        let fp12 = self.miller().fp12();
        proof {
            reveal(final_exponent);
            lemma_pow_positive(base_modulus(), 12);
            assert(final_exponent() >= 0) by (nonlinear_arith)
                requires
                    final_exponent() == (pow(base_modulus(), 12) - 1) / group_order(),
                    pow(base_modulus(), 12) - 1 >= 0,
                    group_order() > 0,
            ;
        }
        fp12.pow(f, &self.final_exponent)
    }

    /// The product of the Miller functions of the given pairs of a point of
    /// the base curve and a point of the twist.
    pub fn multi_miller_loop(
        &self,
        pairs: &Vec<(&EcPoint<FieldElement>, &EcPoint<FieldVector>)>,
    ) -> (r: Result<FieldVector, ChipError>)
        requires
            self.wf(),
            forall|j: int|
                0 <= j < pairs@.len() ==> self.miller_spec().g1_wf((#[trigger] pairs@[j]).0)
                    && self.miller_spec().g2_wf(pairs@[j].1),
        ensures
            self.fp12_agrees(
                r,
                self.multi_miller_loop_spec(pair_g2_values(pairs@), pair_g1_values(pairs@)),
            ),
    {
        let miller = self.miller();
        let fp2 = miller.fp2();
        let g1 = EccChip::new(self.fp_chip);
        let g2 = EccChip::new(&fp2);
        let mut ps: Vec<EcPoint<FieldElement>> = Vec::new();
        let mut qs: Vec<EcPoint<FieldVector>> = Vec::new();
        let mut j: usize = 0;
        while j < pairs.len()
            invariant
                j <= pairs@.len(),
                self.wf(),
                miller == self.miller_spec(),
                fp2 == miller.fp2_spec(),
                fp2.wf(),
                g1.field_chip == self.fp_chip,
                g2.field_chip == &fp2,
                ps@.len() == j,
                qs@.len() == j,
                miller.g1_all_wf(ps@),
                miller.g2_all_wf(qs@),
                forall|j: int|
                    0 <= j < pairs@.len() ==> self.miller_spec().g1_wf((#[trigger] pairs@[j]).0)
                        && self.miller_spec().g2_wf(pairs@[j].1),
                forall|t: int|
                    0 <= t < j ==> g1_value(#[trigger] &ps@[t]) == g1_value(pairs@[t].0),
                forall|t: int|
                    0 <= t < j ==> g2_value(#[trigger] &qs@[t]) == g2_value(pairs@[t].1),
            decreases pairs@.len() - j,
        {
            assert(miller.g1_wf(pairs@[j as int].0) && miller.g2_wf(pairs@[j as int].1));
            let p = g1.duplicate(pairs[j].0);
            let q = g2.duplicate(pairs[j].1);
            assert(g1_value(&p) == g1_value(pairs@[j as int].0)) by {
                assert(seq![p.x@][0] == seq![pairs@[j as int].0.x@][0]);
                assert(seq![p.y@][0] == seq![pairs@[j as int].0.y@][0]);
            }
            ps.push(p);
            qs.push(q);
            j = j + 1;
        }
        assert(g1_values(ps@) =~= pair_g1_values(pairs@));
        assert(g2_values(qs@) =~= pair_g2_values(pairs@));
        self.miller_loop_on(&qs, &ps)
    }

    /// The pairing of a point of the base curve with a point of the twist.
    pub fn pairing(&self, q: &EcPoint<FieldVector>, p: &EcPoint<FieldElement>) -> (r: Result<
        FieldVector,
        ChipError,
    >)
        requires
            self.wf(),
            self.miller_spec().g1_wf(p),
            self.miller_spec().g2_wf(q),
        ensures
            self.fp12_agrees(r, self.multi_pairing_spec(seq![g2_value(q)], seq![g1_value(p)])),
    {
        let mut pairs: Vec<(&EcPoint<FieldElement>, &EcPoint<FieldVector>)> = Vec::new();
        pairs.push((p, q));
        assert(pair_g1_values(pairs@) =~= seq![g1_value(p)]);
        assert(pair_g2_values(pairs@) =~= seq![g2_value(q)]);
        match self.multi_miller_loop(&pairs) {
            Ok(f) => Ok(self.final_exp(&f)),
            Err(e) => Err(e),
        }
    }
}

} // verus!
