//! Points of a short Weierstrass curve `y^2 = x^3 + b` in affine
//! coordinates over any field chip. There is no point at infinity: a sum
//! or a multiple that would be one fails an assertion instead.

use crate::bigint::big_values;
use crate::bignum::{big_div_euclid, big_eq, big_from_u64, big_rem_euclid, big_value};
use crate::errors::{ChipError, Violation};
use crate::fields::FieldChip;
use crate::fields::vector::{vec_add, vec_congruent, vec_neg, vec_reduce, vec_scale, vec_sub};
use crate::limbs::bit_length;
use num_bigint::BigInt;
use vstd::arithmetic::power::pow;
use vstd::prelude::*;

verus! {

/// A point with coordinates of type `C`.
pub struct EcPoint<C> {
    pub x: C,
    pub y: C,
}

/// The chip for the points of a curve over the field of `field_chip`.
pub struct EccChip<'a, C: FieldChip> {
    pub field_chip: &'a C,
}

/// Whether every coefficient passes the range check of the limbs: whether it
/// lies from zero up to, and without, the base to the number of limbs.
pub open spec fn fits_limbs<C: FieldChip>(chip: &C, coeffs: Seq<int>) -> bool {
    forall|i: int|
        0 <= i < coeffs.len() ==> 0 <= #[trigger] coeffs[i] < pow(
            chip.limb_base(),
            chip.limb_count(),
        )
}

/// The quotient `a / b` in the field of `chip`, on coefficients.
pub open spec fn field_div<C: FieldChip>(chip: &C, a: Seq<int>, b: Seq<int>) -> Seq<int> {
    chip.field_mul(a, chip.field_inverse(b))
}

/// Whether the point `pt` satisfies `y^2 = x^3 + b`.
pub open spec fn curve_holds<C: FieldChip>(chip: &C, b: Seq<int>, pt: (Seq<int>, Seq<int>)) -> bool {
    vec_congruent(
        chip.modulus(),
        chip.field_mul(pt.1, pt.1),
        vec_add(chip.modulus(), chip.field_mul(chip.field_mul(pt.0, pt.0), pt.0), b),
    )
}

/// The slope of the chord through `p` and `q`.
pub open spec fn chord_slope<C: FieldChip>(
    chip: &C,
    p: (Seq<int>, Seq<int>),
    q: (Seq<int>, Seq<int>),
) -> Seq<int> {
    field_div(chip, vec_sub(chip.modulus(), q.1, p.1), vec_sub(chip.modulus(), q.0, p.0))
}

/// The slope of the tangent at `p`: `3 x^2 / (2 y)`.
pub open spec fn tangent_slope<C: FieldChip>(chip: &C, p: (Seq<int>, Seq<int>)) -> Seq<int> {
    field_div(
        chip,
        vec_scale(chip.modulus(), chip.field_mul(p.0, p.0), 3),
        vec_scale(chip.modulus(), p.1, 2),
    )
}

/// The third point on the line of slope `slope` through `p` and `q`,
/// reflected: `x3 = slope^2 - x_p - x_q`, `y3 = slope (x_p - x3) - y_p`.
pub open spec fn third_point<C: FieldChip>(
    chip: &C,
    slope: Seq<int>,
    p: (Seq<int>, Seq<int>),
    q: (Seq<int>, Seq<int>),
) -> (Seq<int>, Seq<int>) {
    let m = chip.modulus();
    let x3 = vec_sub(m, vec_sub(m, chip.field_mul(slope, slope), p.0), q.0);
    let y3 = vec_sub(m, chip.field_mul(slope, vec_sub(m, p.0, x3)), p.1);
    (x3, y3)
}

/// The sum of two points with distinct x coordinates. In strict mode equal
/// x coordinates fail the assertion that they differ; otherwise they show
/// as a divisor without inverse.
pub open spec fn ec_add_unequal<C: FieldChip>(
    chip: &C,
    p: (Seq<int>, Seq<int>),
    q: (Seq<int>, Seq<int>),
    strict: bool,
) -> Result<(Seq<int>, Seq<int>), ChipError> {
    if strict && vec_congruent(chip.modulus(), p.0, q.0) {
        Err(ChipError::ConstraintViolation(Violation::DistinctX))
    } else if !chip.field_has_inverse(vec_sub(chip.modulus(), q.0, p.0)) {
        Err(ChipError::ConstraintViolation(Violation::Divisor))
    } else {
        Ok(third_point(chip, chord_slope(chip, p, q), p, q))
    }
}

/// The double of a point, which exists where `2 y` has an inverse.
pub open spec fn ec_double<C: FieldChip>(chip: &C, p: (Seq<int>, Seq<int>)) -> Result<
    (Seq<int>, Seq<int>),
    ChipError,
> {
    if !chip.field_has_inverse(vec_scale(chip.modulus(), p.1, 2)) {
        Err(ChipError::ConstraintViolation(Violation::Divisor))
    } else {
        Ok(third_point(chip, tangent_slope(chip, p), p, p))
    }
}

/// The negative of a point.
pub open spec fn ec_negate(m: int, p: (Seq<int>, Seq<int>)) -> (Seq<int>, Seq<int>) {
    (p.0, vec_neg(m, p.1))
}

/// The multiple `[k] p` for `k >= 1` by doubling and adding from the top
/// bit of `k`. It fails where a step would meet the point at infinity or
/// add two points with one x coordinate.
pub open spec fn ec_scalar_mul<C: FieldChip>(chip: &C, p: (Seq<int>, Seq<int>), k: nat) -> Result<
    (Seq<int>, Seq<int>),
    ChipError,
>
    decreases k,
{
    if k <= 1 {
        Ok(p)
    } else {
        match ec_scalar_mul(chip, p, k / 2) {
            Err(e) => Err(e),
            Ok(half) => match ec_double(chip, half) {
                Err(e) => Err(e),
                Ok(twice) => if k % 2 == 0 {
                    Ok(twice)
                } else {
                    ec_add_unequal(chip, twice, p, true)
                },
            },
        }
    }
}

/// The integers that scalars hold.
pub open spec fn scalar_values(scalars: Seq<BigInt>) -> Seq<int> {
    Seq::new(scalars.len(), |i: int| big_value(scalars[i]))
}

/// The points of fixed bases as they are loaded: every coordinate reduced.
pub open spec fn base_values<C: FieldChip>(
    chip: &C,
    bases: Seq<(Vec<BigInt>, Vec<BigInt>)>,
) -> Seq<(Seq<int>, Seq<int>)> {
    Seq::new(
        bases.len(),
        |i: int|
            (
                vec_reduce(chip.modulus(), big_values(bases[i].0@)),
                vec_reduce(chip.modulus(), big_values(bases[i].1@)),
            ),
    )
}

/// The sum of the multiples `[scalars[i]] points[i]` over the first `n`
/// points, folded from the left with the assertion that the x coordinates
/// of the two terms of each sum differ.
pub open spec fn ec_msm<C: FieldChip>(
    chip: &C,
    points: Seq<(Seq<int>, Seq<int>)>,
    scalars: Seq<int>,
    n: nat,
) -> Result<(Seq<int>, Seq<int>), ChipError>
    decreases n,
{
    if n == 0 {
        Err(ChipError::InputShape)
    } else if n == 1 {
        ec_scalar_mul(chip, points[0], scalars[0] as nat)
    } else {
        match ec_msm(chip, points, scalars, (n - 1) as nat) {
            Err(e) => Err(e),
            Ok(sum) => match ec_scalar_mul(chip, points[n - 1], scalars[n - 1] as nat) {
                Err(e) => Err(e),
                Ok(term) => ec_add_unequal(chip, sum, term, true),
            },
        }
    }
}

/// An error in a sum of multiples stays.
pub proof fn lemma_ec_msm_stays<C: FieldChip>(
    chip: &C,
    points: Seq<(Seq<int>, Seq<int>)>,
    scalars: Seq<int>,
    n: nat,
    m: nat,
)
    requires
        1 <= n <= m,
        ec_msm(chip, points, scalars, n) is Err,
    ensures
        ec_msm(chip, points, scalars, m) == ec_msm(chip, points, scalars, n),
    decreases m,
{
    if n < m {
        lemma_ec_msm_stays(chip, points, scalars, n, (m - 1) as nat);
    }
}

impl<'a, C: FieldChip> EccChip<'a, C> {
    /// The chip for the curve over the field of `field_chip`.
    pub fn new(field_chip: &'a C) -> (r: Self)
        ensures
            r.field_chip == field_chip,
    {
        EccChip { field_chip }
    }

    /// Both coordinates are in carried form.
    pub open spec fn point_wf(&self, p: &EcPoint<C::Point>) -> bool {
        self.field_chip.point_wf(&p.x) && self.field_chip.point_wf(&p.y)
    }

    /// The coordinates of a point as coefficient vectors.
    pub open spec fn value(&self, p: &EcPoint<C::Point>) -> (Seq<int>, Seq<int>) {
        (self.field_chip.coeffs(&p.x), self.field_chip.coeffs(&p.y))
    }

    /// The outcome `r` is the outcome `m` of the mathematics: the same
    /// point in carried form, or the same error.
    pub open spec fn agrees(
        &self,
        r: Result<EcPoint<C::Point>, ChipError>,
        m: Result<(Seq<int>, Seq<int>), ChipError>,
    ) -> bool {
        match r {
            Ok(pt) => m == Ok::<(Seq<int>, Seq<int>), ChipError>(self.value(&pt)) && self.point_wf(
                &pt,
            ),
            Err(e) => m == Err::<(Seq<int>, Seq<int>), ChipError>(e),
        }
    }

    /// Loads the coordinates of a witness under the range check of the
    /// limbs, without asking that the point be on any curve.
    pub fn load_private_unchecked(&self, x: &Vec<BigInt>, y: &Vec<BigInt>) -> (r: Result<
        EcPoint<C::Point>,
        ChipError,
    >)
        requires
            self.field_chip.wf(),
            x@.len() == self.field_chip.degree(),
            y@.len() == self.field_chip.degree(),
        ensures
            match r {
                Ok(pt) => self.value(&pt) == (big_values(x@), big_values(y@)) && self.point_wf(&pt),
                Err(e) => e == ChipError::ConstraintViolation(Violation::FieldRange),
            },
            r is Ok <==> fits_limbs(self.field_chip, big_values(x@)) && fits_limbs(
                self.field_chip,
                big_values(y@),
            ),
    {
        let px = match self.field_chip.load_witness(x) {
            Ok(v) => v,
            Err(e) => {
                return Err(e);
            },
        };
        let py = match self.field_chip.load_witness(y) {
            Ok(v) => v,
            Err(e) => {
                return Err(e);
            },
        };
        Ok(EcPoint { x: px, y: py })
    }

    /// A copy of a point.
    pub fn duplicate(&self, p: &EcPoint<C::Point>) -> (r: EcPoint<C::Point>)
        requires
            self.field_chip.wf(),
            self.point_wf(p),
        ensures
            self.value(&r) == self.value(p),
            self.point_wf(&r),
    {
        EcPoint { x: self.field_chip.duplicate(&p.x), y: self.field_chip.duplicate(&p.y) }
    }

    /// Whether a point satisfies `y^2 = x^3 + b`.
    pub fn is_on_curve(&self, b: &C::Point, p: &EcPoint<C::Point>) -> (r: bool)
        requires
            self.field_chip.wf(),
            self.field_chip.point_wf(b),
            self.point_wf(p),
        ensures
            r == curve_holds(self.field_chip, self.field_chip.coeffs(b), self.value(p)),
    {
        let chip = self.field_chip;
        let lhs = chip.mul(&p.y, &p.y);
        let x_squared = chip.mul(&p.x, &p.x);
        let x_cubed = chip.mul(&x_squared, &p.x);
        let rhs = chip.add(&x_cubed, b);
        chip.is_equal(&lhs, &rhs)
    }

    /// Asserts that a point satisfies `y^2 = x^3 + b`.
    pub fn assert_is_on_curve(&self, b: &C::Point, p: &EcPoint<C::Point>) -> (r: Result<
        (),
        ChipError,
    >)
        requires
            self.field_chip.wf(),
            self.field_chip.point_wf(b),
            self.point_wf(p),
        ensures
            r is Ok <==> curve_holds(self.field_chip, self.field_chip.coeffs(b), self.value(p)),
            r matches Err(e) ==> e == ChipError::ConstraintViolation(Violation::OnCurve),
    {
        if self.is_on_curve(b, p) {
            Ok(())
        } else {
            Err(ChipError::ConstraintViolation(Violation::OnCurve))
        }
    }

    /// The third point on the line of the given slope through `p` and `q`,
    /// reflected.
    fn from_slope(&self, slope: &C::Point, p: &EcPoint<C::Point>, q: &EcPoint<C::Point>) -> (r:
        EcPoint<C::Point>)
        requires
            self.field_chip.wf(),
            self.field_chip.point_wf(slope),
            self.point_wf(p),
            self.point_wf(q),
        ensures
            self.value(&r) == third_point(
                self.field_chip,
                self.field_chip.coeffs(slope),
                self.value(p),
                self.value(q),
            ),
            self.point_wf(&r),
    {
        let chip = self.field_chip;
        let slope_squared = chip.mul(slope, slope);
        let without_p = chip.sub(&slope_squared, &p.x);
        let x3 = chip.sub(&without_p, &q.x);
        let run = chip.sub(&p.x, &x3);
        let rise = chip.mul(slope, &run);
        let y3 = chip.sub(&rise, &p.y);
        EcPoint { x: x3, y: y3 }
    }

    /// The sum of two points. In strict mode the chip asserts that their x
    /// coordinates differ; otherwise the caller vouches for it, and equal x
    /// coordinates fail the division.
    pub fn add_unequal(&self, p: &EcPoint<C::Point>, q: &EcPoint<C::Point>, strict: bool) -> (r:
        Result<EcPoint<C::Point>, ChipError>)
        requires
            self.field_chip.wf(),
            self.point_wf(p),
            self.point_wf(q),
        ensures
            self.agrees(r, ec_add_unequal(self.field_chip, self.value(p), self.value(q), strict)),
    {
        let chip = self.field_chip;
        if strict && chip.is_equal(&p.x, &q.x) {
            return Err(ChipError::ConstraintViolation(Violation::DistinctX));
        }
        let dx = chip.sub(&q.x, &p.x);
        let dy = chip.sub(&q.y, &p.y);
        match chip.divide(&dy, &dx) {
            Ok(slope) => Ok(self.from_slope(&slope, p, q)),
            Err(e) => Err(e),
        }
    }

    /// The double of a point.
    pub fn double(&self, p: &EcPoint<C::Point>) -> (r: Result<EcPoint<C::Point>, ChipError>)
        requires
            self.field_chip.wf(),
            self.point_wf(p),
        ensures
            self.agrees(r, ec_double(self.field_chip, self.value(p))),
    {
        let chip = self.field_chip;
        proof {
            assert(bit_length(3) == 2 && bit_length(2) == 2) by {
                reveal_with_fuel(bit_length, 4);
            }
        }
        let x_squared = chip.mul(&p.x, &p.x);
        let numerator = chip.scalar_mul(&x_squared, 3);
        let denominator = chip.scalar_mul(&p.y, 2);
        match chip.divide(&numerator, &denominator) {
            Ok(slope) => Ok(self.from_slope(&slope, p, p)),
            Err(e) => Err(e),
        }
    }

    /// The negative of a point.
    pub fn negate(&self, p: &EcPoint<C::Point>) -> (r: EcPoint<C::Point>)
        requires
            self.field_chip.wf(),
            self.point_wf(p),
        ensures
            self.value(&r) == ec_negate(self.field_chip.modulus(), self.value(p)),
            self.point_wf(&r),
    {
        EcPoint { x: self.field_chip.duplicate(&p.x), y: self.field_chip.negate(&p.y) }
    }

    /// Whether two points have the same coordinates in the field.
    pub fn is_equal(&self, p: &EcPoint<C::Point>, q: &EcPoint<C::Point>) -> (r: bool)
        requires
            self.field_chip.wf(),
            self.point_wf(p),
            self.point_wf(q),
        ensures
            r == (vec_congruent(self.field_chip.modulus(), self.value(p).0, self.value(q).0)
                && vec_congruent(self.field_chip.modulus(), self.value(p).1, self.value(q).1)),
    {
        self.field_chip.is_equal(&p.x, &q.x) && self.field_chip.is_equal(&p.y, &q.y)
    }

    /// The multiple `[k] p` of a point for `k >= 1`.
    pub fn scalar_mul(&self, p: &EcPoint<C::Point>, k: u64) -> (r: Result<
        EcPoint<C::Point>,
        ChipError,
    >)
        requires
            self.field_chip.wf(),
            self.point_wf(p),
            k >= 1,
        ensures
            self.agrees(r, ec_scalar_mul(self.field_chip, self.value(p), k as nat)),
        decreases k,
    {
        if k <= 1 {
            return Ok(self.duplicate(p));
        }
        let half = match self.scalar_mul(p, k / 2) {
            Ok(h) => h,
            Err(e) => {
                return Err(e);
            },
        };
        let twice = match self.double(&half) {
            Ok(d) => d,
            Err(e) => {
                return Err(e);
            },
        };
        if k % 2 == 0 {
            Ok(twice)
        } else {
            self.add_unequal(&twice, p, true)
        }
    }

    /// The multiple `[k] p` of a point for a scalar `k >= 1` of any size.
    pub fn scalar_mult(&self, p: &EcPoint<C::Point>, k: &BigInt) -> (r: Result<
        EcPoint<C::Point>,
        ChipError,
    >)
        requires
            self.field_chip.wf(),
            self.point_wf(p),
            big_value(*k) >= 1,
        ensures
            self.agrees(r, ec_scalar_mul(self.field_chip, self.value(p), big_value(*k) as nat)),
        decreases big_value(*k),
    {
        let one = big_from_u64(1);
        let two = big_from_u64(2);
        if big_eq(k, &one) {
            return Ok(self.duplicate(p));
        }
        let half_scalar = big_div_euclid(k, &two);
        let odd = big_eq(&big_rem_euclid(k, &two), &one);
        let half = match self.scalar_mult(p, &half_scalar) {
            Ok(h) => h,
            Err(e) => {
                return Err(e);
            },
        };
        let twice = match self.double(&half) {
            Ok(d) => d,
            Err(e) => {
                return Err(e);
            },
        };
        if odd {
            self.add_unequal(&twice, p, true)
        } else {
            Ok(twice)
        }
    }

    /// The sum of the multiples of fixed bases by the given scalars, each
    /// at least one. The bases are constants of the circuit and are loaded
    /// reduced. Lists that are empty or differ in length are refused.
    pub fn fixed_base_msm(
        &self,
        bases: &Vec<(Vec<BigInt>, Vec<BigInt>)>,
        scalars: &Vec<BigInt>,
    ) -> (r: Result<EcPoint<C::Point>, ChipError>)
        requires
            self.field_chip.wf(),
            forall|i: int|
                0 <= i < bases@.len() ==> (#[trigger] bases@[i]).0@.len()
                    == self.field_chip.degree() && bases@[i].1@.len() == self.field_chip.degree(),
            forall|i: int| 0 <= i < scalars@.len() ==> big_value(#[trigger] scalars@[i]) >= 1,
        ensures
            self.agrees(
                r,
                if bases@.len() != scalars@.len() {
                    Err(ChipError::InputShape)
                } else {
                    ec_msm(
                        self.field_chip,
                        base_values(self.field_chip, bases@),
                        scalar_values(scalars@),
                        bases@.len(),
                    )
                },
            ),
    {
        if bases.len() != scalars.len() || bases.len() == 0 {
            return Err(ChipError::InputShape);
        }
        let ghost points = base_values(self.field_chip, bases@);
        let ghost ks = scalar_values(scalars@);
        let first = EcPoint {
            x: self.field_chip.load_constant(&bases[0].0),
            y: self.field_chip.load_constant(&bases[0].1),
        };
        let mut sum = match self.scalar_mult(&first, &scalars[0]) {
            Ok(t) => t,
            Err(e) => {
                proof {
                    lemma_ec_msm_stays(self.field_chip, points, ks, 1, bases@.len() as nat);
                }
                return Err(e);
            },
        };
        let mut i: usize = 1;
        while i < bases.len()
            invariant
                1 <= i <= bases@.len(),
                bases@.len() == scalars@.len(),
                self.field_chip.wf(),
                forall|i: int|
                    0 <= i < bases@.len() ==> (#[trigger] bases@[i]).0@.len()
                        == self.field_chip.degree() && bases@[i].1@.len()
                        == self.field_chip.degree(),
                forall|i: int| 0 <= i < scalars@.len() ==> big_value(#[trigger] scalars@[i]) >= 1,
                points == base_values(self.field_chip, bases@),
                ks == scalar_values(scalars@),
                self.point_wf(&sum),
                ec_msm(self.field_chip, points, ks, i as nat) == Ok::<
                    (Seq<int>, Seq<int>),
                    ChipError,
                >(self.value(&sum)),
            decreases bases@.len() - i,
        {
            let base = EcPoint {
                x: self.field_chip.load_constant(&bases[i].0),
                y: self.field_chip.load_constant(&bases[i].1),
            };
            assert(self.value(&base) == points[i as int]);
            assert(ks[i as int] == big_value(scalars@[i as int]));
            let term = match self.scalar_mult(&base, &scalars[i]) {
                Ok(t) => t,
                Err(e) => {
                    proof {
                        lemma_ec_msm_stays(
                            self.field_chip,
                            points,
                            ks,
                            (i + 1) as nat,
                            bases@.len() as nat,
                        );
                    }
                    return Err(e);
                },
            };
            match self.add_unequal(&sum, &term, true) {
                Ok(next) => {
                    sum = next;
                },
                Err(e) => {
                    proof {
                        lemma_ec_msm_stays(
                            self.field_chip,
                            points,
                            ks,
                            (i + 1) as nat,
                            bases@.len() as nat,
                        );
                    }
                    return Err(e);
                },
            }
            i = i + 1;
        }
        Ok(sum)
    }
}

/// The non-adjacent form of `n`: digits in `{-1, 0, 1}`, least significant
/// first.
pub open spec fn naf(n: nat) -> Seq<int>
    decreases n,
{
    if n == 0 {
        Seq::empty()
    } else if n % 2 == 0 {
        seq![0int] + naf(n / 2)
    } else if n % 4 == 1 {
        seq![1int] + naf(n / 2)
    } else {
        seq![-1int] + naf((n + 1) / 2)
    }
}

/// The integer that signed binary digits spell, least significant first.
pub open spec fn signed_digits_value(digits: Seq<int>) -> int
    decreases digits.len(),
{
    if digits.len() == 0 {
        0
    } else {
        digits[0] + 2 * signed_digits_value(digits.skip(1))
    }
}

/// The digits as integers.
pub open spec fn digit_values(digits: Seq<i8>) -> Seq<int> {
    Seq::new(digits.len(), |i: int| digits[i] as int)
}

/// The non-adjacent form spells the number it was made from, with no other
/// digits than -1, 0 and 1, and for a positive number it ends in a digit
/// that is not zero.
pub proof fn lemma_naf(n: nat)
    ensures
        signed_digits_value(naf(n)) == n,
        forall|i: int| 0 <= i < naf(n).len() ==> -1 <= #[trigger] naf(n)[i] <= 1,
        n > 0 ==> naf(n).len() > 0 && naf(n).last() == 1,
    decreases n,
{
    if n > 0 {
        let rest = if n % 2 == 0 || n % 4 == 1 {
            n / 2
        } else {
            (n + 1) / 2
        };
        lemma_naf(rest);
        assert(naf(n).skip(1) =~= naf(rest));
        assert(naf(n).len() == naf(rest).len() + 1);
        if rest > 0 {
            assert(naf(n).last() == naf(rest).last());
        }
        assert forall|i: int| 0 <= i < naf(n).len() implies -1 <= #[trigger] naf(n)[i] <= 1 by {
            if i > 0 {
                assert(naf(n)[i] == naf(rest)[i - 1]);
            }
        }
    }
}

/// The non-adjacent form of `n`.
pub fn get_naf(n: u128) -> (r: Vec<i8>)
    requires
        n < 0x8000_0000_0000_0000_0000_0000_0000_0000,
    ensures
        digit_values(r@) == naf(n as nat),
{
    let mut digits: Vec<i8> = Vec::new();
    let mut m: u128 = n;
    assert(digit_values(digits@) + naf(m as nat) =~= naf(n as nat));
    while m > 0
        invariant
            m <= n,
            n < 0x8000_0000_0000_0000_0000_0000_0000_0000,
            digit_values(digits@) + naf(m as nat) == naf(n as nat),
        decreases m,
    {
        let ghost before = digit_values(digits@);
        let ghost old_m = m as nat;
        let digit: i8 = if m % 2 == 0 {
            m = m / 2;
            0
        } else if m % 4 == 1 {
            m = m / 2;
            1
        } else {
            m = (m + 1) / 2;
            -1
        };
        digits.push(digit);
        assert(digit_values(digits@) =~= before.push(digit as int));
        assert(before.push(digit as int) + naf(m as nat) =~= before + (seq![digit as int] + naf(
            m as nat,
        )));
        assert(naf(old_m) == seq![digit as int] + naf(m as nat));
    }
    assert(naf(0) =~= Seq::<int>::empty());
    assert(digit_values(digits@) + Seq::<int>::empty() =~= digit_values(digits@));
    digits
}

} // verus!
