//! The Miller loop of the optimal Ate pairing, shared by the curves: the
//! line functions through points of the twist, evaluated at points of the
//! base curve, and their accumulation along a signed-digit chain.

use crate::bignum::{big_from_u64, big_value};
use crate::ecc::{digit_values, ec_add_unequal, ec_double, ec_negate, EcPoint, EccChip};
use crate::errors::ChipError;
use crate::fields::FieldChip;
use crate::fields::fp12::{fp12_from_fp2, fp12_mul, fp12_one, Fp12Chip, MAX_XI_BITS};
use crate::fields::fp2::{fp2_mul, fp2_mul_by_xi, supports_tower, Fp2Chip};
use crate::fields::fp::{FieldElement, FpChip};
use crate::fields::vector::{vec_fp_mul, vec_scale, vec_sub, FieldVector};
use crate::limbs::bit_length;
use vstd::prelude::*;

verus! {

/// A point of the base curve as a pair of integers.
pub open spec fn g1_value(p: &EcPoint<FieldElement>) -> (int, int) {
    (p.x@, p.y@)
}

/// A point of the twist as a pair of `Fp2` coefficient vectors.
pub open spec fn g2_value(q: &EcPoint<FieldVector>) -> (Seq<int>, Seq<int>) {
    (q.x@, q.y@)
}

/// The zero of `Fp2`.
pub open spec fn fp2_zero() -> Seq<int> {
    seq![0int, 0int]
}

/// The line through the images of `q0` and `q1` under the untwisting map,
/// evaluated at `pt` and scaled by a factor that the final exponentiation
/// removes. With `a = (y0 - y1) X`, `b = (x1 - x0) Y` and
/// `c = x0 y1 - x1 y0` it is `b w^2 + a w^3 + c w^5` on a divisive twist and
/// `c + a w^2 + b w^3` on a multiplicative twist.
pub open spec fn line_unequal(
    p: int,
    m_twist: bool,
    q0: (Seq<int>, Seq<int>),
    q1: (Seq<int>, Seq<int>),
    pt: (int, int),
) -> Seq<int> {
    let a = vec_fp_mul(p, vec_sub(p, q0.1, q1.1), pt.0);
    let b = vec_fp_mul(p, vec_sub(p, q1.0, q0.0), pt.1);
    let c = vec_sub(p, fp2_mul(p, q0.0, q1.1), fp2_mul(p, q1.0, q0.1));
    if m_twist {
        fp12_from_fp2(seq![c, fp2_zero(), a, b, fp2_zero(), fp2_zero()])
    } else {
        fp12_from_fp2(seq![fp2_zero(), fp2_zero(), b, a, fp2_zero(), c])
    }
}

/// The tangent at the image of `q` under the untwisting map, evaluated at
/// `pt` and scaled by a factor that the final exponentiation removes. With
/// `d = 3 x^3 - 2 y^2`, `a = -3 x^2 X` and `b = 2 y Y` it is
/// `xi d + b w^3 + a w^4` on a divisive twist and `d + a w^2 + b w^3` on a
/// multiplicative twist.
pub open spec fn line_equal(
    p: int,
    xi_0: int,
    m_twist: bool,
    q: (Seq<int>, Seq<int>),
    pt: (int, int),
) -> Seq<int> {
    let x_sq = fp2_mul(p, q.0, q.0);
    let x_cube = fp2_mul(p, x_sq, q.0);
    let y_sq = fp2_mul(p, q.1, q.1);
    let d = vec_sub(p, vec_scale(p, x_cube, 3), vec_scale(p, y_sq, 2));
    let a = vec_fp_mul(p, vec_scale(p, x_sq, -3), pt.0);
    let b = vec_fp_mul(p, vec_scale(p, q.1, 2), pt.1);
    if m_twist {
        fp12_from_fp2(seq![d, fp2_zero(), a, b, fp2_zero(), fp2_zero()])
    } else {
        fp12_from_fp2(
            seq![fp2_mul_by_xi(p, xi_0, d), fp2_zero(), fp2_zero(), b, a, fp2_zero()],
        )
    }
}

/// The chip that runs Miller loops over the tower on `fp_chip` with
/// `w^6 = xi_0 + u`, for a twist of the given kind.
pub struct MillerLoopChip<'a> {
    pub fp_chip: &'a FpChip,
    pub xi_0: i64,
    pub m_twist: bool,
}

impl<'a> MillerLoopChip<'a> {
    /// The chip is set up over a field whose prime supports the tower, with
    /// a small positive `xi_0` below the prime.
    pub open spec fn wf(&self) -> bool {
        &&& self.fp_chip.wf()
        &&& supports_tower(self.fp_chip.modulus())
        &&& 1 <= self.xi_0 < self.fp_chip.modulus()
        &&& bit_length(self.xi_0 as nat) <= MAX_XI_BITS
    }

    /// The prime of the base field.
    pub open spec fn modulus(&self) -> int {
        self.fp_chip.modulus()
    }

    /// The chip of the quadratic extension.
    pub open spec fn fp2_spec(&self) -> Fp2Chip<'a> {
        Fp2Chip { fp_chip: self.fp_chip }
    }

    /// The chip of the quadratic extension.
    pub fn fp2(&self) -> (r: Fp2Chip<'a>)
        requires
            self.wf(),
        ensures
            r == self.fp2_spec(),
            r.wf(),
    {
        Fp2Chip { fp_chip: self.fp_chip }
    }

    /// The chip of the degree-twelve extension.
    pub fn fp12(&self) -> (r: Fp12Chip<'a>)
        requires
            self.wf(),
        ensures
            r.fp_chip == self.fp_chip,
            r.xi_0 == self.xi_0,
            r.wf(),
    {
        Fp12Chip { fp_chip: self.fp_chip, xi_0: self.xi_0 }
    }

    /// A point of the base curve in carried form.
    pub open spec fn g1_wf(&self, p: &EcPoint<FieldElement>) -> bool {
        p.x.wf(self.fp_chip) && p.y.wf(self.fp_chip)
    }

    /// A point of the twist in carried form.
    pub open spec fn g2_wf(&self, q: &EcPoint<FieldVector>) -> bool {
        self.fp2_spec().point_wf(&q.x) && self.fp2_spec().point_wf(&q.y)
    }

    /// The element of `Fp12` with the given `Fp2` coefficients of `w^i`,
    /// `w^j` and `w^k`, and zero elsewhere.
    fn sparse(
        &self,
        i: usize,
        ci: &FieldVector,
        j: usize,
        cj: &FieldVector,
        k: usize,
        ck: &FieldVector,
    ) -> (r: FieldVector)
        requires
            self.wf(),
            i < j < k < 6,
            self.fp2_spec().point_wf(ci),
            self.fp2_spec().point_wf(cj),
            self.fp2_spec().point_wf(ck),
        ensures
            r@ == fp12_from_fp2(
                Seq::new(
                    6,
                    |t: int|
                        if t == i {
                            ci@
                        } else if t == j {
                            cj@
                        } else if t == k {
                            ck@
                        } else {
                            fp2_zero()
                        },
                ),
            ),
            r.wf(self.fp_chip),
            r.0@.len() == 12,
    {
        let fp = self.fp_chip;
        let ghost target = fp12_from_fp2(
            Seq::new(
                6,
                |t: int|
                    if t == i {
                        ci@
                    } else if t == j {
                        cj@
                    } else if t == k {
                        ck@
                    } else {
                        fp2_zero()
                    },
            ),
        );
        let zero = big_from_u64(0);
        proof {
            vstd::arithmetic::div_mod::lemma_small_mod(0, fp.modulus() as nat);
        }
        let mut out: Vec<FieldElement> = Vec::new();
        let mut t: usize = 0;
        while t < 12
            invariant
                t <= 12,
                self.wf(),
                fp == self.fp_chip,
                i < j < k < 6,
                self.fp2_spec().point_wf(ci),
                self.fp2_spec().point_wf(cj),
                self.fp2_spec().point_wf(ck),
                big_value(zero) == 0,
                0int % fp.modulus() == 0,
                out@.len() == t,
                target == fp12_from_fp2(
                    Seq::new(
                        6,
                        |t: int|
                            if t == i {
                                ci@
                            } else if t == j {
                                cj@
                            } else if t == k {
                                ck@
                            } else {
                                fp2_zero()
                            },
                    ),
                ),
                forall|s: int| 0 <= s < t ==> (#[trigger] out@[s])@ == target[s] && out@[s].wf(fp),
            decreases 12 - t,
        {
            let power = if t < 6 {
                t
            } else {
                t - 6
            };
            let part: usize = if t < 6 {
                0
            } else {
                1
            };
            assert(ci.0@[part as int].wf(fp) && cj.0@[part as int].wf(fp) && ck.0@[part as int].wf(
                fp,
            ));
            let x = if power == i {
                ci.0[part].duplicate()
            } else if power == j {
                cj.0[part].duplicate()
            } else if power == k {
                ck.0[part].duplicate()
            } else {
                fp.load_constant(&zero)
            };
            out.push(x);
            t = t + 1;
        }
        let r = FieldVector(out);
        assert(r@ =~= target);
        r
    }

    /// The line through two points of the twist, evaluated at a point of
    /// the base curve.
    pub fn line_unequal(
        &self,
        q0: &EcPoint<FieldVector>,
        q1: &EcPoint<FieldVector>,
        pt: &EcPoint<FieldElement>,
    ) -> (r: FieldVector)
        requires
            self.wf(),
            self.g2_wf(q0),
            self.g2_wf(q1),
            self.g1_wf(pt),
        ensures
            r@ == line_unequal(
                self.modulus(),
                self.m_twist,
                g2_value(q0),
                g2_value(q1),
                g1_value(pt),
            ),
            r.wf(self.fp_chip),
            r.0@.len() == 12,
    {
        let fp2 = self.fp2();
        let dy = fp2.sub(&q0.y, &q1.y);
        let a = fp2.fp_mul(&dy, &pt.x);
        let dx = fp2.sub(&q1.x, &q0.x);
        let b = fp2.fp_mul(&dx, &pt.y);
        let x0y1 = fp2.mul(&q0.x, &q1.y);
        let x1y0 = fp2.mul(&q1.x, &q0.y);
        let c = fp2.sub(&x0y1, &x1y0);
        if self.m_twist {
            let r = self.sparse(0, &c, 2, &a, 3, &b);
            assert(Seq::new(
                6,
                |t: int|
                    if t == 0 {
                        c@
                    } else if t == 2 {
                        a@
                    } else if t == 3 {
                        b@
                    } else {
                        fp2_zero()
                    },
            ) =~= seq![c@, fp2_zero(), a@, b@, fp2_zero(), fp2_zero()]);
            r
        } else {
            let r = self.sparse(2, &b, 3, &a, 5, &c);
            assert(Seq::new(
                6,
                |t: int|
                    if t == 2 {
                        b@
                    } else if t == 3 {
                        a@
                    } else if t == 5 {
                        c@
                    } else {
                        fp2_zero()
                    },
            ) =~= seq![fp2_zero(), fp2_zero(), b@, a@, fp2_zero(), c@]);
            r
        }
    }

    /// The tangent at a point of the twist, evaluated at a point of the
    /// base curve.
    pub fn line_equal(&self, q: &EcPoint<FieldVector>, pt: &EcPoint<FieldElement>) -> (r:
        FieldVector)
        requires
            self.wf(),
            self.g2_wf(q),
            self.g1_wf(pt),
        ensures
            r@ == line_equal(
                self.modulus(),
                self.xi_0 as int,
                self.m_twist,
                g2_value(q),
                g1_value(pt),
            ),
            r.wf(self.fp_chip),
            r.0@.len() == 12,
    {
        let fp2 = self.fp2();
        proof {
            assert(bit_length(3) == 2 && bit_length(2) == 2) by {
                reveal_with_fuel(bit_length, 4);
            }
        }
        let x_sq = fp2.mul(&q.x, &q.x);
        let x_cube = fp2.mul(&x_sq, &q.x);
        let y_sq = fp2.mul(&q.y, &q.y);
        let three_x_cube = fp2.scalar_mul(&x_cube, 3);
        let two_y_sq = fp2.scalar_mul(&y_sq, 2);
        let d = fp2.sub(&three_x_cube, &two_y_sq);
        let minus_three_x_sq = fp2.scalar_mul(&x_sq, -3);
        let a = fp2.fp_mul(&minus_three_x_sq, &pt.x);
        let two_y = fp2.scalar_mul(&q.y, 2);
        let b = fp2.fp_mul(&two_y, &pt.y);
        if self.m_twist {
            let r = self.sparse(0, &d, 2, &a, 3, &b);
            assert(Seq::new(
                6,
                |t: int|
                    if t == 0 {
                        d@
                    } else if t == 2 {
                        a@
                    } else if t == 3 {
                        b@
                    } else {
                        fp2_zero()
                    },
            ) =~= seq![d@, fp2_zero(), a@, b@, fp2_zero(), fp2_zero()]);
            r
        } else {
            let xi_d = fp2.mul_by_xi(&d, self.xi_0);
            let r = self.sparse(0, &xi_d, 3, &b, 4, &a);
            assert(Seq::new(
                6,
                |t: int|
                    if t == 0 {
                        xi_d@
                    } else if t == 3 {
                        b@
                    } else if t == 4 {
                        a@
                    } else {
                        fp2_zero()
                    },
            ) =~= seq![xi_d@, fp2_zero(), fp2_zero(), b@, a@, fp2_zero()]);
            r
        }
    }

    /// One round of doublings over the first `n` pairs: for each pair the
    /// accumulator takes up the tangent at the running point, and the
    /// running point is doubled.
    pub open spec fn double_round(
        &self,
        f: Seq<int>,
        rs: Seq<(Seq<int>, Seq<int>)>,
        ps: Seq<(int, int)>,
        n: nat,
    ) -> Result<(Seq<int>, Seq<(Seq<int>, Seq<int>)>), ChipError>
        decreases n,
    {
        if n == 0 {
            Ok((f, rs))
        } else {
            match self.double_round(f, rs, ps, (n - 1) as nat) {
                Err(e) => Err(e),
                Ok(s) => {
                    let j = n - 1;
                    let line = line_equal(
                        self.modulus(),
                        self.xi_0 as int,
                        self.m_twist,
                        s.1[j],
                        ps[j],
                    );
                    match ec_double(&self.fp2_spec(), s.1[j]) {
                        Err(e) => Err(e),
                        Ok(d) => Ok(
                            (
                                fp12_mul(self.modulus(), self.xi_0 as int, s.0, line),
                                s.1.update(j, d),
                            ),
                        ),
                    }
                },
            }
        }
    }

    /// One round of additions over the first `n` pairs: for each pair the
    /// accumulator takes up the line through the running point and the
    /// point `qs[j]`, and the running point moves on by `qs[j]`.
    pub open spec fn add_round(
        &self,
        f: Seq<int>,
        rs: Seq<(Seq<int>, Seq<int>)>,
        qs: Seq<(Seq<int>, Seq<int>)>,
        ps: Seq<(int, int)>,
        n: nat,
    ) -> Result<(Seq<int>, Seq<(Seq<int>, Seq<int>)>), ChipError>
        decreases n,
    {
        if n == 0 {
            Ok((f, rs))
        } else {
            match self.add_round(f, rs, qs, ps, (n - 1) as nat) {
                Err(e) => Err(e),
                Ok(s) => {
                    let j = n - 1;
                    let line = line_unequal(self.modulus(), self.m_twist, s.1[j], qs[j], ps[j]);
                    match ec_add_unequal(&self.fp2_spec(), s.1[j], qs[j], false) {
                        Err(e) => Err(e),
                        Ok(d) => Ok(
                            (
                                fp12_mul(self.modulus(), self.xi_0 as int, s.0, line),
                                s.1.update(j, d),
                            ),
                        ),
                    }
                },
            }
        }
    }

    /// The step of the loop for one digit of the chain: the accumulator is
    /// squared, every pair is doubled, and for a digit other than zero every
    /// pair takes up its point or the negative of it.
    pub open spec fn digit_round(
        &self,
        f: Seq<int>,
        rs: Seq<(Seq<int>, Seq<int>)>,
        qs: Seq<(Seq<int>, Seq<int>)>,
        ps: Seq<(int, int)>,
        digit: int,
    ) -> Result<(Seq<int>, Seq<(Seq<int>, Seq<int>)>), ChipError> {
        match self.double_round(
            fp12_mul(self.modulus(), self.xi_0 as int, f, f),
            rs,
            ps,
            ps.len(),
        ) {
            Err(e) => Err(e),
            Ok(s) => if digit == 0 {
                Ok(s)
            } else {
                self.add_round(s.0, s.1, signed_points(self.modulus(), qs, digit), ps, ps.len())
            },
        }
    }

    /// The state of the loop after the `n` digits below the top digit of the
    /// chain: the accumulator and the running point of every pair.
    pub open spec fn miller_rounds(
        &self,
        qs: Seq<(Seq<int>, Seq<int>)>,
        ps: Seq<(int, int)>,
        digits: Seq<int>,
        n: nat,
    ) -> Result<(Seq<int>, Seq<(Seq<int>, Seq<int>)>), ChipError>
        decreases n,
    {
        if n == 0 {
            Ok((fp12_one(), signed_points(self.modulus(), qs, digits.last())))
        } else {
            match self.miller_rounds(qs, ps, digits, (n - 1) as nat) {
                Err(e) => Err(e),
                Ok(s) => self.digit_round(s.0, s.1, qs, ps, digits[digits.len() - 1 - n]),
            }
        }
    }

    /// An error in a round of doublings stays.
    pub proof fn lemma_double_round_stays(
        &self,
        f: Seq<int>,
        rs: Seq<(Seq<int>, Seq<int>)>,
        ps: Seq<(int, int)>,
        n: nat,
        m: nat,
    )
        requires
            n <= m,
            self.double_round(f, rs, ps, n) is Err,
        ensures
            self.double_round(f, rs, ps, m) == self.double_round(f, rs, ps, n),
        decreases m,
    {
        if n < m {
            self.lemma_double_round_stays(f, rs, ps, n, (m - 1) as nat);
        }
    }

    /// An error in a round of additions stays.
    pub proof fn lemma_add_round_stays(
        &self,
        f: Seq<int>,
        rs: Seq<(Seq<int>, Seq<int>)>,
        qs: Seq<(Seq<int>, Seq<int>)>,
        ps: Seq<(int, int)>,
        n: nat,
        m: nat,
    )
        requires
            n <= m,
            self.add_round(f, rs, qs, ps, n) is Err,
        ensures
            self.add_round(f, rs, qs, ps, m) == self.add_round(f, rs, qs, ps, n),
        decreases m,
    {
        if n < m {
            self.lemma_add_round_stays(f, rs, qs, ps, n, (m - 1) as nat);
        }
    }

    /// An error in the loop stays.
    pub proof fn lemma_miller_rounds_stays(
        &self,
        qs: Seq<(Seq<int>, Seq<int>)>,
        ps: Seq<(int, int)>,
        digits: Seq<int>,
        n: nat,
        m: nat,
    )
        requires
            n <= m,
            self.miller_rounds(qs, ps, digits, n) is Err,
        ensures
            self.miller_rounds(qs, ps, digits, m) == self.miller_rounds(qs, ps, digits, n),
        decreases m,
    {
        if n < m {
            self.lemma_miller_rounds_stays(qs, ps, digits, n, (m - 1) as nat);
        }
    }

    /// The outcome `r` is the outcome `m` of the mathematics: the same
    /// accumulator and running points in carried form, or the same error.
    pub open spec fn state_agrees(
        &self,
        r: Result<(FieldVector, Vec<EcPoint<FieldVector>>), ChipError>,
        m: Result<(Seq<int>, Seq<(Seq<int>, Seq<int>)>), ChipError>,
    ) -> bool {
        match r {
            Ok(s) => {
                &&& m is Ok
                &&& m->Ok_0 == (s.0@, g2_values(s.1@))
                &&& s.0.wf(self.fp_chip)
                &&& s.0.0@.len() == 12
                &&& self.g2_all_wf(s.1@)
            },
            Err(e) => m is Err && m->Err_0 == e,
        }
    }

    /// Every point of the base curve is in carried form.
    pub open spec fn g1_all_wf(&self, ps: Seq<EcPoint<FieldElement>>) -> bool {
        forall|j: int| 0 <= j < ps.len() ==> self.g1_wf(#[trigger] &ps[j])
    }

    /// Every point of the twist is in carried form.
    pub open spec fn g2_all_wf(&self, qs: Seq<EcPoint<FieldVector>>) -> bool {
        forall|j: int| 0 <= j < qs.len() ==> self.g2_wf(#[trigger] &qs[j])
    }

    /// Runs one round of doublings over all pairs.
    fn double_all(
        &self,
        f: FieldVector,
        rs: Vec<EcPoint<FieldVector>>,
        ps: &Vec<EcPoint<FieldElement>>,
    ) -> (r: Result<(FieldVector, Vec<EcPoint<FieldVector>>), ChipError>)
        requires
            self.wf(),
            f.wf(self.fp_chip),
            f.0@.len() == 12,
            rs@.len() == ps@.len(),
            self.g2_all_wf(rs@),
            self.g1_all_wf(ps@),
        ensures
            self.state_agrees(
                r,
                self.double_round(f@, g2_values(rs@), g1_values(ps@), ps@.len()),
            ),
            r matches Ok(s) ==> s.1@.len() == ps@.len(),
    {
        let fp2 = self.fp2();
        let fp12 = self.fp12();
        let g2 = EccChip::new(&fp2);
        let ghost f0 = f@;
        let ghost rs0 = g2_values(rs@);
        let ghost pv = g1_values(ps@);
        let mut acc = f;
        let mut points = rs;
        let mut j: usize = 0;
        while j < ps.len()
            invariant
                j <= ps@.len(),
                self.wf(),
                fp2 == self.fp2_spec(),
                fp2.wf(),
                fp12.fp_chip == self.fp_chip,
                fp12.xi_0 == self.xi_0,
                fp12.wf(),
                g2.field_chip == &fp2,
                acc.wf(self.fp_chip),
                acc.0@.len() == 12,
                points@.len() == ps@.len(),
                self.g2_all_wf(points@),
                self.g1_all_wf(ps@),
                pv == g1_values(ps@),
                f0 == f@,
                rs0 == g2_values(rs@),
                self.double_round(f0, rs0, pv, j as nat) == Ok::<
                    (Seq<int>, Seq<(Seq<int>, Seq<int>)>),
                    ChipError,
                >((acc@, g2_values(points@))),
            decreases ps@.len() - j,
        {
            assert(self.g2_wf(&points@[j as int]));
            assert(self.g1_wf(&ps@[j as int]));
            let line = self.line_equal(&points[j], &ps[j]);
            let g = fp12.mul(&acc, &line);
            match g2.double(&points[j]) {
                Err(e) => {
                    proof {
                        assert(self.double_round(f0, rs0, pv, (j + 1) as nat) is Err);
                        self.lemma_double_round_stays(
                            f0,
                            rs0,
                            pv,
                            (j + 1) as nat,
                            ps@.len() as nat,
                        );
                    }
                    return Err(e);
                },
                Ok(d) => {
                    let ghost before = g2_values(points@);
                    points.set(j, d);
                    acc = g;
                    proof {
                        assert(g2_values(points@) =~= before.update(j as int, g2_value(&d)));
                    }
                },
            }
            j = j + 1;
        }
        Ok((acc, points))
    }

    /// Runs one round of additions over all pairs.
    fn add_all(
        &self,
        f: FieldVector,
        rs: Vec<EcPoint<FieldVector>>,
        qs: &Vec<EcPoint<FieldVector>>,
        ps: &Vec<EcPoint<FieldElement>>,
    ) -> (r: Result<(FieldVector, Vec<EcPoint<FieldVector>>), ChipError>)
        requires
            self.wf(),
            f.wf(self.fp_chip),
            f.0@.len() == 12,
            rs@.len() == ps@.len(),
            qs@.len() == ps@.len(),
            self.g2_all_wf(rs@),
            self.g2_all_wf(qs@),
            self.g1_all_wf(ps@),
        ensures
            self.state_agrees(
                r,
                self.add_round(f@, g2_values(rs@), g2_values(qs@), g1_values(ps@), ps@.len()),
            ),
            r matches Ok(s) ==> s.1@.len() == ps@.len(),
    {
        let fp2 = self.fp2();
        let fp12 = self.fp12();
        let g2 = EccChip::new(&fp2);
        let ghost f0 = f@;
        let ghost rs0 = g2_values(rs@);
        let ghost qv = g2_values(qs@);
        let ghost pv = g1_values(ps@);
        let mut acc = f;
        let mut points = rs;
        let mut j: usize = 0;
        while j < ps.len()
            invariant
                j <= ps@.len(),
                self.wf(),
                fp2 == self.fp2_spec(),
                fp2.wf(),
                fp12.fp_chip == self.fp_chip,
                fp12.xi_0 == self.xi_0,
                fp12.wf(),
                g2.field_chip == &fp2,
                acc.wf(self.fp_chip),
                acc.0@.len() == 12,
                points@.len() == ps@.len(),
                qs@.len() == ps@.len(),
                self.g2_all_wf(points@),
                self.g2_all_wf(qs@),
                self.g1_all_wf(ps@),
                pv == g1_values(ps@),
                qv == g2_values(qs@),
                f0 == f@,
                rs0 == g2_values(rs@),
                self.add_round(f0, rs0, qv, pv, j as nat) == Ok::<
                    (Seq<int>, Seq<(Seq<int>, Seq<int>)>),
                    ChipError,
                >((acc@, g2_values(points@))),
            decreases ps@.len() - j,
        {
            assert(self.g2_wf(&points@[j as int]));
            assert(self.g2_wf(&qs@[j as int]));
            assert(self.g1_wf(&ps@[j as int]));
            let line = self.line_unequal(&points[j], &qs[j], &ps[j]);
            let g = fp12.mul(&acc, &line);
            match g2.add_unequal(&points[j], &qs[j], false) {
                Err(e) => {
                    proof {
                        assert(self.add_round(f0, rs0, qv, pv, (j + 1) as nat) is Err);
                        self.lemma_add_round_stays(
                            f0,
                            rs0,
                            qv,
                            pv,
                            (j + 1) as nat,
                            ps@.len() as nat,
                        );
                    }
                    return Err(e);
                },
                Ok(d) => {
                    let ghost before = g2_values(points@);
                    points.set(j, d);
                    acc = g;
                    proof {
                        assert(g2_values(points@) =~= before.update(j as int, g2_value(&d)));
                    }
                },
            }
            j = j + 1;
        }
        Ok((acc, points))
    }

    /// Copies of the points of the twist.
    pub fn copy_all(&self, qs: &Vec<EcPoint<FieldVector>>) -> (r: Vec<EcPoint<FieldVector>>)
        requires
            self.wf(),
            self.g2_all_wf(qs@),
        ensures
            g2_values(r@) == g2_values(qs@),
            r@.len() == qs@.len(),
            self.g2_all_wf(r@),
    {
        let fp2 = self.fp2();
        let g2 = EccChip::new(&fp2);
        let mut out: Vec<EcPoint<FieldVector>> = Vec::new();
        let mut j: usize = 0;
        while j < qs.len()
            invariant
                j <= qs@.len(),
                self.wf(),
                fp2 == self.fp2_spec(),
                fp2.wf(),
                g2.field_chip == &fp2,
                self.g2_all_wf(qs@),
                self.g2_all_wf(out@),
                out@.len() == j,
                forall|t: int| 0 <= t < j ==> g2_value(#[trigger] &out@[t]) == g2_value(&qs@[t]),
            decreases qs@.len() - j,
        {
            assert(self.g2_wf(&qs@[j as int]));
            let q = g2.duplicate(&qs[j]);
            out.push(q);
            j = j + 1;
        }
        assert(g2_values(out@) =~= g2_values(qs@));
        out
    }

    /// The negatives of the points of the twist.
    pub fn negate_all(&self, qs: &Vec<EcPoint<FieldVector>>) -> (r: Vec<EcPoint<FieldVector>>)
        requires
            self.wf(),
            self.g2_all_wf(qs@),
        ensures
            g2_values(r@) == signed_points(self.modulus(), g2_values(qs@), -1),
            r@.len() == qs@.len(),
            self.g2_all_wf(r@),
    {
        let fp2 = self.fp2();
        let g2 = EccChip::new(&fp2);
        let mut out: Vec<EcPoint<FieldVector>> = Vec::new();
        let mut j: usize = 0;
        while j < qs.len()
            invariant
                j <= qs@.len(),
                self.wf(),
                fp2 == self.fp2_spec(),
                fp2.wf(),
                g2.field_chip == &fp2,
                self.g2_all_wf(qs@),
                self.g2_all_wf(out@),
                out@.len() == j,
                forall|t: int|
                    0 <= t < j ==> g2_value(#[trigger] &out@[t]) == ec_negate(
                        self.modulus(),
                        g2_value(&qs@[t]),
                    ),
            decreases qs@.len() - j,
        {
            assert(self.g2_wf(&qs@[j as int]));
            let q = g2.negate(&qs[j]);
            out.push(q);
            j = j + 1;
        }
        assert(g2_values(out@) =~= signed_points(self.modulus(), g2_values(qs@), -1));
        out
    }

    /// Runs the loop along the chain of digits, least significant first:
    /// from the top digit down, the accumulator is squared and takes up the
    /// lines of the doublings and additions that lead each running point
    /// from its point `qs[j]` to the multiple that the chain spells. Returns
    /// the accumulator and the running points.
    pub fn miller_loop(
        &self,
        qs: &Vec<EcPoint<FieldVector>>,
        ps: &Vec<EcPoint<FieldElement>>,
        digits: &Vec<i8>,
    ) -> (r: Result<(FieldVector, Vec<EcPoint<FieldVector>>), ChipError>)
        requires
            self.wf(),
            qs@.len() == ps@.len(),
            self.g2_all_wf(qs@),
            self.g1_all_wf(ps@),
            digits@.len() >= 1,
        ensures
            self.state_agrees(
                r,
                self.miller_rounds(
                    g2_values(qs@),
                    g1_values(ps@),
                    digit_values(digits@),
                    (digits@.len() - 1) as nat,
                ),
            ),
            r matches Ok(s) ==> s.1@.len() == ps@.len(),
    {
        let fp12 = self.fp12();
        let ghost qv = g2_values(qs@);
        let ghost pv = g1_values(ps@);
        let ghost dv = digit_values(digits@);
        let top = digits.len() - 1;
        let neg_qs = self.negate_all(qs);
        let mut points = if digits[top] > 0 {
            self.copy_all(qs)
        } else {
            self.copy_all(&neg_qs)
        };
        let mut acc = fp12.one();
        let mut n: usize = 0;
        assert(dv.last() == digits@[top as int] as int);
        while n < top
            invariant
                n <= top,
                top == digits@.len() - 1,
                self.wf(),
                fp12.fp_chip == self.fp_chip,
                fp12.xi_0 == self.xi_0,
                fp12.wf(),
                qs@.len() == ps@.len(),
                neg_qs@.len() == ps@.len(),
                points@.len() == ps@.len(),
                self.g2_all_wf(qs@),
                self.g2_all_wf(neg_qs@),
                self.g2_all_wf(points@),
                self.g1_all_wf(ps@),
                acc.wf(self.fp_chip),
                acc.0@.len() == 12,
                qv == g2_values(qs@),
                pv == g1_values(ps@),
                dv == digit_values(digits@),
                g2_values(neg_qs@) == signed_points(self.modulus(), qv, -1),
                self.miller_rounds(qv, pv, dv, n as nat) == Ok::<
                    (Seq<int>, Seq<(Seq<int>, Seq<int>)>),
                    ChipError,
                >((acc@, g2_values(points@))),
            decreases top - n,
        {
            let digit = digits[top - 1 - n];
            assert(dv[dv.len() - 1 - (n + 1)] == digit as int);
            let square = fp12.square(&acc);
            let doubled = self.double_all(square, points, ps);
            let (g, moved) = match doubled {
                Err(e) => {
                    proof {
                        assert(self.miller_rounds(qv, pv, dv, (n + 1) as nat) is Err);
                        self.lemma_miller_rounds_stays(qv, pv, dv, (n + 1) as nat, top as nat);
                    }
                    return Err(e);
                },
                Ok(s) => s,
            };
            if digit == 0 {
                acc = g;
                points = moved;
            } else {
                let signed = if digit > 0 {
                    qs
                } else {
                    &neg_qs
                };
                assert(g2_values(signed@) == signed_points(self.modulus(), qv, digit as int));
                match self.add_all(g, moved, signed, ps) {
                    Err(e) => {
                        proof {
                            assert(self.miller_rounds(qv, pv, dv, (n + 1) as nat) is Err);
                            self.lemma_miller_rounds_stays(qv, pv, dv, (n + 1) as nat, top as nat);
                        }
                        return Err(e);
                    },
                    Ok(s) => {
                        acc = s.0;
                        points = s.1;
                    },
                }
            }
            n = n + 1;
        }
        Ok((acc, points))
    }
}

/// The points of the base curve in a list of pairs.
pub open spec fn pair_g1_values(
    pairs: Seq<(&EcPoint<FieldElement>, &EcPoint<FieldVector>)>,
) -> Seq<(int, int)> {
    Seq::new(pairs.len(), |j: int| g1_value(pairs[j].0))
}

/// The points of the twist in a list of pairs.
pub open spec fn pair_g2_values(
    pairs: Seq<(&EcPoint<FieldElement>, &EcPoint<FieldVector>)>,
) -> Seq<(Seq<int>, Seq<int>)> {
    Seq::new(pairs.len(), |j: int| g2_value(pairs[j].1))
}

/// The points of the base curve as pairs of integers.
pub open spec fn g1_values(ps: Seq<EcPoint<FieldElement>>) -> Seq<(int, int)> {
    Seq::new(ps.len(), |j: int| g1_value(&ps[j]))
}

/// The points of the twist as pairs of coefficient vectors.
pub open spec fn g2_values(qs: Seq<EcPoint<FieldVector>>) -> Seq<(Seq<int>, Seq<int>)> {
    Seq::new(qs.len(), |j: int| g2_value(&qs[j]))
}

/// The points `qs` for a positive digit and their negatives otherwise.
pub open spec fn signed_points(p: int, qs: Seq<(Seq<int>, Seq<int>)>, digit: int) -> Seq<
    (Seq<int>, Seq<int>),
> {
    if digit > 0 {
        qs
    } else {
        Seq::new(qs.len(), |j: int| ec_negate(p, qs[j]))
    }
}

} // verus!
