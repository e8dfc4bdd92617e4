//! The degree-twelve extension `Fp12 = Fp2[w] / (w^6 - xi)` with
//! `xi = xi_0 + u`. An element is a vector of twelve coefficients:
//! `sum over i < 6 of (c[i] + c[i + 6] u) w^i`.

use crate::bigint::{big_values, ResidueInteger};
use crate::bignum::{
    big_clone, big_div_euclid, big_eq, big_from_i64, big_from_u64, big_lt, big_mul, big_rem_euclid,
    big_sub, big_value, big_zero,
};
use crate::errors::{ChipError, Violation};
use crate::fields::FieldChip;
use crate::fields::fp2::{fp2_frobenius, fp2_mul, fp2_one, fp2_pow, supports_tower, Fp2Chip};
use crate::fields::fp6::{fp6_has_inverse, fp6_inverse, fp6_mul, fp6_mul_by_v, Fp6Chip};
use crate::fields::fp::{bit_length_of, FieldElement, FpChip};
use crate::fields::vector::{
    vec_congruent, vec_neg, vec_reduce, vec_sub, FieldVector, FieldVectorChip, UnreducedVector,
};
use crate::limbs::bit_length;
use num_bigint::BigInt;
use vstd::arithmetic::power2::*;
use vstd::arithmetic::power::*;
use vstd::prelude::*;

verus! {

/// The most bits that `xi_0` may take.
pub const MAX_XI_BITS: usize = 8;

/// What the product of the `Fp2` coefficients `i` of `a` and `j` of `b`
/// adds to coefficient `k` of the product: the product itself where
/// `i + j == k`, and `xi` times the product where `i + j == k + 6`. The pair
/// holds the part without `u` and the part with it.
pub open spec fn fp12_term(xi_0: int, a: Seq<int>, b: Seq<int>, k: int, i: int) -> (int, int) {
    let j = if i <= k {
        k - i
    } else {
        k + 6 - i
    };
    let re = a[i] * b[j] - a[i + 6] * b[j + 6];
    let im = a[i] * b[j + 6] + a[i + 6] * b[j];
    if i <= k {
        (re, im)
    } else {
        (xi_0 * re - im, re + xi_0 * im)
    }
}

/// The sum of the first `n` terms of coefficient `k` of a product.
pub open spec fn fp12_partial(xi_0: int, a: Seq<int>, b: Seq<int>, k: int, n: nat) -> (int, int)
    decreases n,
{
    if n == 0 {
        (0, 0)
    } else {
        let sum = fp12_partial(xi_0, a, b, k, (n - 1) as nat);
        let term = fp12_term(xi_0, a, b, k, n - 1);
        (sum.0 + term.0, sum.1 + term.1)
    }
}

/// The product of two elements as integers, before any reduction.
pub open spec fn fp12_mul_no_carry(xi_0: int, a: Seq<int>, b: Seq<int>) -> Seq<int> {
    Seq::new(
        12,
        |t: int|
            if t < 6 {
                fp12_partial(xi_0, a, b, t, 6).0
            } else {
                fp12_partial(xi_0, a, b, t - 6, 6).1
            },
    )
}

/// The index of the coefficient of the second factor that meets
/// coefficient `i` of the first in coefficient `k` of a product.
pub open spec fn fp12_partner(k: int, i: int) -> int {
    if i <= k {
        k - i
    } else {
        k + 6 - i
    }
}

/// The sum of the first `n` terms of coefficient `k` of a square, with the
/// two equal terms of every pair of distinct coefficients taken as twice
/// the first of them.
pub open spec fn fp12_square_partial(xi_0: int, a: Seq<int>, k: int, n: nat) -> (int, int)
    decreases n,
{
    if n == 0 {
        (0, 0)
    } else {
        let sum = fp12_square_partial(xi_0, a, k, (n - 1) as nat);
        let term = fp12_term(xi_0, a, a, k, n - 1);
        if n - 1 < fp12_partner(k, n - 1) {
            (sum.0 + 2 * term.0, sum.1 + 2 * term.1)
        } else if n - 1 == fp12_partner(k, n - 1) {
            (sum.0 + term.0, sum.1 + term.1)
        } else {
            sum
        }
    }
}

/// In a square the two terms of a pair of coefficients are equal.
proof fn lemma_term_symmetric(xi_0: int, a: Seq<int>, k: int, i: int)
    requires
        0 <= k < 6,
        0 <= i < 6,
    ensures
        fp12_term(xi_0, a, a, k, i) == fp12_term(xi_0, a, a, k, fp12_partner(k, i)),
{
    let j = fp12_partner(k, i);
    assert(a[i] * a[j] == a[j] * a[i]) by (nonlinear_arith);
    assert(a[i + 6] * a[j + 6] == a[j + 6] * a[i + 6]) by (nonlinear_arith);
    assert(a[i] * a[j + 6] == a[j + 6] * a[i]) by (nonlinear_arith);
    assert(a[i + 6] * a[j] == a[j] * a[i + 6]) by (nonlinear_arith);
}

/// Taking every pair of distinct coefficients once and twice over gives the
/// coefficient of the product of an element with itself.
pub proof fn lemma_square_partial(xi_0: int, a: Seq<int>, k: int)
    requires
        0 <= k < 6,
    ensures
        fp12_square_partial(xi_0, a, k, 6) == fp12_partial(xi_0, a, a, k, 6),
{
    lemma_term_symmetric(xi_0, a, k, 0);
    lemma_term_symmetric(xi_0, a, k, 1);
    lemma_term_symmetric(xi_0, a, k, 2);
    lemma_term_symmetric(xi_0, a, k, 3);
    lemma_term_symmetric(xi_0, a, k, 4);
    lemma_term_symmetric(xi_0, a, k, 5);
    reveal_with_fuel(fp12_square_partial, 7);
    reveal_with_fuel(fp12_partial, 7);
}

/// The product of two elements of `Fp12`.
pub open spec fn fp12_mul(p: int, xi_0: int, a: Seq<int>, b: Seq<int>) -> Seq<int> {
    vec_reduce(p, fp12_mul_no_carry(xi_0, a, b))
}

/// The one of `Fp12`.
pub open spec fn fp12_one() -> Seq<int> {
    Seq::new(
        12,
        |t: int|
            if t == 0 {
                1int
            } else {
                0int
            },
    )
}

/// The conjugate of an element over `Fp6`: the image under `w -> -w`.
pub open spec fn fp12_conjugate(p: int, a: Seq<int>) -> Seq<int> {
    Seq::new(
        12,
        |t: int|
            if t % 2 == 0 {
                a[t] % p
            } else {
                (-a[t]) % p
            },
    )
}

/// The power `a^e` by squaring and multiplying from the top bit of `e`.
pub open spec fn fp12_pow(p: int, xi_0: int, a: Seq<int>, e: nat) -> Seq<int>
    decreases e,
{
    if e == 0 {
        fp12_one()
    } else {
        let half = fp12_pow(p, xi_0, a, e / 2);
        let square = fp12_mul(p, xi_0, half, half);
        if e % 2 == 1 {
            fp12_mul(p, xi_0, square, a)
        } else {
            square
        }
    }
}

/// The element of `Fp12` with the given six `Fp2` coefficients of the powers
/// of `w`.
pub open spec fn fp12_from_fp2(c: Seq<Seq<int>>) -> Seq<int> {
    Seq::new(
        12,
        |t: int|
            if t < 6 {
                c[t][0]
            } else {
                c[t - 6][1]
            },
    )
}

/// The power `g^i` as the product of `i` factors `g`.
pub open spec fn fp2_power_chain(p: int, g: Seq<int>, i: nat) -> Seq<int>
    decreases i,
{
    if i == 0 {
        fp2_one()
    } else {
        fp2_mul(p, fp2_power_chain(p, g, (i - 1) as nat), g)
    }
}

/// The factor that the Frobenius map, taken `power` times, puts on `w`:
/// `xi^((p^power - 1) / 6)`, with `power` taken modulo twelve.
pub open spec fn frobenius_coeff(p: int, xi_0: int, power: nat) -> Seq<int> {
    fp2_pow(p, seq![xi_0, 1int], ((pow(p, power % 12) - 1) / 6) as nat)
}

/// The image of an element under the Frobenius map `x -> x^p`, taken `power`
/// times: the map acts on each `Fp2` coefficient, and the coefficient of
/// `w^i` takes the factor of `w` to the power `i`.
pub open spec fn fp12_frobenius(p: int, xi_0: int, a: Seq<int>, power: nat) -> Seq<int> {
    fp12_from_fp2(
        Seq::new(
            6,
            |i: int|
                fp2_mul(
                    p,
                    fp2_frobenius(p, seq![a[i], a[i + 6]], power),
                    fp2_power_chain(p, frobenius_coeff(p, xi_0, power), i as nat),
                ),
        ),
    )
}

/// The factors of the Frobenius maps on `w`, one for each power modulo
/// twelve.
pub struct FrobeniusTable {
    pub coeffs: Vec<FieldVector>,
}

/// The coefficients of the even powers of `w` of an element, as an element
/// of `Fp6` in `v = w^2`.
pub open spec fn fp12_even(a: Seq<int>) -> Seq<int> {
    seq![a[0], a[2], a[4], a[6], a[8], a[10]]
}

/// The coefficients of the odd powers of `w` of an element, as an element
/// of `Fp6` in `v = w^2`.
pub open spec fn fp12_odd(a: Seq<int>) -> Seq<int> {
    seq![a[1], a[3], a[5], a[7], a[9], a[11]]
}

/// The element `even + w odd` of `Fp12` for `even` and `odd` in `Fp6`.
pub open spec fn fp12_from_halves(even: Seq<int>, odd: Seq<int>) -> Seq<int> {
    seq![
        even[0],
        odd[0],
        even[1],
        odd[1],
        even[2],
        odd[2],
        even[3],
        odd[3],
        even[4],
        odd[4],
        even[5],
        odd[5],
    ]
}

/// The norm of an element `e + w o` over `Fp6`: `e^2 - v o^2`, the product
/// of the element with its conjugate `e - w o`.
pub open spec fn fp12_norm(p: int, xi_0: int, a: Seq<int>) -> Seq<int> {
    vec_sub(
        p,
        fp6_mul(p, xi_0, fp12_even(a), fp12_even(a)),
        fp6_mul_by_v(p, xi_0, fp6_mul(p, xi_0, fp12_odd(a), fp12_odd(a))),
    )
}

/// Whether an element of `Fp12` has an inverse: whether its norm has one.
pub open spec fn fp12_has_inverse(p: int, xi_0: int, a: Seq<int>) -> bool {
    fp6_has_inverse(p, xi_0, fp12_norm(p, xi_0, a))
}

/// The inverse of an element: its conjugate over its norm.
pub open spec fn fp12_inverse(p: int, xi_0: int, a: Seq<int>) -> Seq<int> {
    let n = fp6_inverse(p, xi_0, fp12_norm(p, xi_0, a));
    fp12_from_halves(
        fp6_mul(p, xi_0, fp12_even(a), n),
        vec_neg(p, fp6_mul(p, xi_0, fp12_odd(a), n)),
    )
}

/// The chip of the degree-twelve extension over the field of `fp_chip`.
pub struct Fp12Chip<'a> {
    pub fp_chip: &'a FpChip,
    pub xi_0: i64,
}

impl<'a> Fp12Chip<'a> {
    /// The chip is set up over a field whose prime supports the tower, with
    /// a small positive `xi_0` below the prime.
    pub open spec fn wf(&self) -> bool {
        &&& self.fp_chip.wf()
        &&& supports_tower(self.fp_chip.modulus())
        &&& 1 <= self.xi_0 < self.fp_chip.modulus()
        &&& bit_length(self.xi_0 as nat) <= MAX_XI_BITS
    }

    /// The element has twelve coefficients in carried form.
    pub open spec fn point_wf(&self, a: &FieldVector) -> bool {
        a.wf(self.fp_chip) && a.0@.len() == 12
    }

    /// Sets up the extension over `fp_chip` with `w^6 = xi_0 + u`.
    pub fn new(fp_chip: &'a FpChip, xi_0: i64) -> (r: Result<Self, ChipError>)
        ensures
            match r {
                Ok(chip) => chip.fp_chip == fp_chip && chip.xi_0 == xi_0 && supports_tower(
                    fp_chip.modulus(),
                ) && 1 <= xi_0 < fp_chip.modulus() && bit_length(xi_0 as nat) <= MAX_XI_BITS,
                Err(e) => if !supports_tower(fp_chip.modulus()) {
                    e == ChipError::UnsupportedModulus
                } else {
                    e == ChipError::BoundExceeded && !(1 <= xi_0 < fp_chip.modulus() && bit_length(
                        xi_0 as nat,
                    ) <= MAX_XI_BITS)
                },
            },
    {
        let by_four = big_rem_euclid(&fp_chip.p, &big_from_u64(4));
        let by_six = big_rem_euclid(&fp_chip.p, &big_from_u64(6));
        if !(big_eq(&by_four, &big_from_u64(3)) && big_eq(&by_six, &big_from_u64(1))) {
            return Err(ChipError::UnsupportedModulus);
        }
        if xi_0 < 1 || !big_lt(&big_from_i64(xi_0), &fp_chip.p) {
            return Err(ChipError::BoundExceeded);
        }
        if bit_length_of(xi_0 as u64) > MAX_XI_BITS {
            return Err(ChipError::BoundExceeded);
        }
        Ok(Fp12Chip { fp_chip, xi_0 })
    }

    /// The chip for the coefficient-wise operations.
    pub fn vector_chip(&self) -> (r: FieldVectorChip<'a>)
        ensures
            r.fp_chip == self.fp_chip,
    {
        FieldVectorChip::new(self.fp_chip)
    }

    /// What coefficients `i` of `a` and `j` of `b` contribute, as the part
    /// without `u` and the part with it; multiplied by `xi` where `wrapped`.
    fn term(&self, a: &FieldVector, b: &FieldVector, i: usize, j: usize, wrapped: bool) -> (r: (
        ResidueInteger,
        ResidueInteger,
    ))
        requires
            self.wf(),
            self.point_wf(a),
            self.point_wf(b),
            i < 6,
            j < 6,
        ensures
            r.0.wf(self.fp_chip),
            r.1.wf(self.fp_chip),
            r.0.max_limb_bits <= self.fp_chip.product_bits + 2 + MAX_XI_BITS,
            r.1.max_limb_bits <= self.fp_chip.product_bits + 2 + MAX_XI_BITS,
            !wrapped ==> r.0@ == a@[i as int] * b@[j as int] - a@[i + 6] * b@[j + 6] && r.1@
                == a@[i as int] * b@[j + 6] + a@[i + 6] * b@[j as int],
            wrapped ==> r.0@ == self.xi_0 * (a@[i as int] * b@[j as int] - a@[i + 6] * b@[j + 6])
                - (a@[i as int] * b@[j + 6] + a@[i + 6] * b@[j as int]) && r.1@ == (a@[i as int]
                * b@[j as int] - a@[i + 6] * b@[j + 6]) + self.xi_0 * (a@[i as int] * b@[j + 6]
                + a@[i + 6] * b@[j as int]),
    {
        let fp = self.fp_chip;
        assert(a.0@[i as int].wf(fp) && a.0@[i + 6].wf(fp));
        assert(b.0@[j as int].wf(fp) && b.0@[j + 6].wf(fp));
        let rr = fp.mul_no_carry(&a.0[i], &b.0[j]);
        let ii = fp.mul_no_carry(&a.0[i + 6], &b.0[j + 6]);
        let ri = fp.mul_no_carry(&a.0[i], &b.0[j + 6]);
        let ir = fp.mul_no_carry(&a.0[i + 6], &b.0[j]);
        let re = fp.sub_no_carry(&rr, &ii);
        let im = fp.add_no_carry(&ri, &ir);
        if wrapped {
            let xi_re = fp.scalar_mul_no_carry(&re, self.xi_0);
            let xi_im = fp.scalar_mul_no_carry(&im, self.xi_0);
            let out_re = fp.sub_no_carry(&xi_re, &im);
            let out_im = fp.add_no_carry(&re, &xi_im);
            (out_re, out_im)
        } else {
            (re, im)
        }
    }

    /// The product of two elements, without reduction.
    pub fn mul_no_carry(&self, a: &FieldVector, b: &FieldVector) -> (r: UnreducedVector)
        requires
            self.wf(),
            self.point_wf(a),
            self.point_wf(b),
        ensures
            r@ == fp12_mul_no_carry(self.xi_0 as int, a@, b@),
            r.wf(self.fp_chip),
            r.0@.len() == 12,
    {
        let fp = self.fp_chip;
        let ghost xi = self.xi_0 as int;
        let mut res: Vec<ResidueInteger> = Vec::new();
        let mut ims: Vec<ResidueInteger> = Vec::new();
        let mut k: usize = 0;
        while k < 6
            invariant
                k <= 6,
                self.wf(),
                self.point_wf(a),
                self.point_wf(b),
                fp == self.fp_chip,
                xi == self.xi_0 as int,
                res@.len() == k,
                ims@.len() == k,
                forall|t: int|
                    0 <= t < k ==> (#[trigger] res@[t])@ == fp12_partial(xi, a@, b@, t, 6).0
                        && res@[t].wf(fp),
                forall|t: int|
                    0 <= t < k ==> (#[trigger] ims@[t])@ == fp12_partial(xi, a@, b@, t, 6).1
                        && ims@[t].wf(fp),
            decreases 6 - k,
        {
            let (mut acc_re, mut acc_im) = self.term(a, b, 0, k, false);
            assert(fp12_partial(xi, a@, b@, k as int, 1) == (acc_re@, acc_im@)) by {
                reveal_with_fuel(fp12_partial, 2);
            }
            let mut i: usize = 1;
            while i < 6
                invariant
                    1 <= i <= 6,
                    k < 6,
                    self.wf(),
                    self.point_wf(a),
                    self.point_wf(b),
                    fp == self.fp_chip,
                    xi == self.xi_0 as int,
                    acc_re.wf(fp),
                    acc_im.wf(fp),
                    acc_re.max_limb_bits <= fp.product_bits + 2 + MAX_XI_BITS + i,
                    acc_im.max_limb_bits <= fp.product_bits + 2 + MAX_XI_BITS + i,
                    (acc_re@, acc_im@) == fp12_partial(xi, a@, b@, k as int, i as nat),
                decreases 6 - i,
            {
                let wrapped = i > k;
                let j = if wrapped {
                    k + 6 - i
                } else {
                    k - i
                };
                let (re, im) = self.term(a, b, i, j, wrapped);
                acc_re = fp.add_no_carry(&acc_re, &re);
                acc_im = fp.add_no_carry(&acc_im, &im);
                i = i + 1;
            }
            res.push(acc_re);
            ims.push(acc_im);
            k = k + 1;
        }
        res.append(&mut ims);
        let r = UnreducedVector(res);
        assert(r@ =~= fp12_mul_no_carry(xi, a@, b@));
        r
    }

    /// The product of two elements.
    pub fn mul(&self, a: &FieldVector, b: &FieldVector) -> (r: FieldVector)
        requires
            self.wf(),
            self.point_wf(a),
            self.point_wf(b),
        ensures
            r@ == fp12_mul(self.fp_chip.modulus(), self.xi_0 as int, a@, b@),
            self.point_wf(&r),
            r.reduced(self.fp_chip),
    {
        let product = self.mul_no_carry(a, b);
        let r = self.vector_chip().carry_mod(&product);
        assert(r@.len() == 12);
        r
    }

    /// The square of an element, without reduction. Every pair of distinct
    /// coefficients is multiplied once and counted twice.
    pub fn square_no_carry(&self, a: &FieldVector) -> (r: UnreducedVector)
        requires
            self.wf(),
            self.point_wf(a),
        ensures
            r@ == fp12_mul_no_carry(self.xi_0 as int, a@, a@),
            r.wf(self.fp_chip),
            r.0@.len() == 12,
    {
        let fp = self.fp_chip;
        let ghost xi = self.xi_0 as int;
        let mut res: Vec<ResidueInteger> = Vec::new();
        let mut ims: Vec<ResidueInteger> = Vec::new();
        let mut k: usize = 0;
        proof {
            assert(bit_length(2) == 2) by {
                reveal_with_fuel(bit_length, 4);
            }
        }
        while k < 6
            invariant
                k <= 6,
                self.wf(),
                self.point_wf(a),
                fp == self.fp_chip,
                xi == self.xi_0 as int,
                bit_length(2) == 2,
                res@.len() == k,
                ims@.len() == k,
                forall|t: int|
                    0 <= t < k ==> (#[trigger] res@[t])@ == fp12_partial(xi, a@, a@, t, 6).0
                        && res@[t].wf(fp),
                forall|t: int|
                    0 <= t < k ==> (#[trigger] ims@[t])@ == fp12_partial(xi, a@, a@, t, 6).1
                        && ims@[t].wf(fp),
            decreases 6 - k,
        {
            // Coefficient 0 pairs with coefficient k, and with itself where k is 0.
            let (first_re, first_im) = self.term(a, a, 0, k, false);
            let (mut acc_re, mut acc_im) = if k > 0 {
                (fp.scalar_mul_no_carry(&first_re, 2), fp.scalar_mul_no_carry(&first_im, 2))
            } else {
                (first_re, first_im)
            };
            assert(fp12_square_partial(xi, a@, k as int, 1) == (acc_re@, acc_im@)) by {
                reveal_with_fuel(fp12_square_partial, 2);
            }
            let mut i: usize = 1;
            while i < 6
                invariant
                    1 <= i <= 6,
                    k < 6,
                    self.wf(),
                    self.point_wf(a),
                    fp == self.fp_chip,
                    xi == self.xi_0 as int,
                    bit_length(2) == 2,
                    acc_re.wf(fp),
                    acc_im.wf(fp),
                    acc_re.max_limb_bits <= fp.product_bits + 4 + MAX_XI_BITS + i,
                    acc_im.max_limb_bits <= fp.product_bits + 4 + MAX_XI_BITS + i,
                    (acc_re@, acc_im@) == fp12_square_partial(xi, a@, k as int, i as nat),
                decreases 6 - i,
            {
                let wrapped = i > k;
                let j = if wrapped {
                    k + 6 - i
                } else {
                    k - i
                };
                if i < j {
                    let (re, im) = self.term(a, a, i, j, wrapped);
                    let twice_re = fp.scalar_mul_no_carry(&re, 2);
                    let twice_im = fp.scalar_mul_no_carry(&im, 2);
                    acc_re = fp.add_no_carry(&acc_re, &twice_re);
                    acc_im = fp.add_no_carry(&acc_im, &twice_im);
                } else if i == j {
                    let (re, im) = self.term(a, a, i, j, wrapped);
                    acc_re = fp.add_no_carry(&acc_re, &re);
                    acc_im = fp.add_no_carry(&acc_im, &im);
                }
                i = i + 1;
            }
            proof {
                lemma_square_partial(xi, a@, k as int);
            }
            res.push(acc_re);
            ims.push(acc_im);
            k = k + 1;
        }
        res.append(&mut ims);
        let r = UnreducedVector(res);
        assert(r@ =~= fp12_mul_no_carry(xi, a@, a@));
        r
    }

    /// The square of an element.
    pub fn square(&self, a: &FieldVector) -> (r: FieldVector)
        requires
            self.wf(),
            self.point_wf(a),
        ensures
            r@ == fp12_mul(self.fp_chip.modulus(), self.xi_0 as int, a@, a@),
            self.point_wf(&r),
            r.reduced(self.fp_chip),
    {
        let product = self.square_no_carry(a);
        let r = self.vector_chip().carry_mod(&product);
        assert(r@.len() == 12);
        r
    }

    /// The one of the field.
    pub fn one(&self) -> (r: FieldVector)
        requires
            self.wf(),
        ensures
            r@ == fp12_one(),
            self.point_wf(&r),
            r.reduced(self.fp_chip),
    {
        let mut coeffs: Vec<BigInt> = Vec::new();
        coeffs.push(big_from_u64(1));
        let mut i: usize = 1;
        while i < 12
            invariant
                1 <= i <= 12,
                coeffs@.len() == i,
                big_value(coeffs@[0]) == 1,
                forall|j: int| 1 <= j < i ==> big_value(#[trigger] coeffs@[j]) == 0,
            decreases 12 - i,
        {
            coeffs.push(big_zero());
            i = i + 1;
        }
        let r = self.vector_chip().load_constant(&coeffs);
        proof {
            let p = self.fp_chip.modulus();
            assert(1int % p == 1 && 0int % p == 0) by {
                vstd::arithmetic::div_mod::lemma_small_mod(1, p as nat);
                vstd::arithmetic::div_mod::lemma_small_mod(0, p as nat);
            }
            assert(r@ =~= fp12_one());
        }
        r
    }

    /// The conjugate of an element over the cubic subfield tower: every
    /// coefficient of an odd power of `w` changes its sign.
    pub fn conjugate(&self, a: &FieldVector) -> (r: FieldVector)
        requires
            self.wf(),
            self.point_wf(a),
        ensures
            r@ == fp12_conjugate(self.fp_chip.modulus(), a@),
            self.point_wf(&r),
            r.reduced(self.fp_chip),
    {
        let fp = self.fp_chip;
        let mut out: Vec<FieldElement> = Vec::new();
        let mut i: usize = 0;
        while i < 12
            invariant
                i <= 12,
                out@.len() == i,
                self.wf(),
                self.point_wf(a),
                fp == self.fp_chip,
                forall|t: int|
                    0 <= t < i ==> (#[trigger] out@[t])@ == fp12_conjugate(fp.modulus(), a@)[t]
                        && out@[t].wf(fp) && out@[t].reduced(fp),
            decreases 12 - i,
        {
            assert(a.0@[i as int].wf(fp));
            let x = if i % 2 == 0 {
                fp.carry_mod(&a.0[i].0)
            } else {
                fp.negate(&a.0[i])
            };
            out.push(x);
            i = i + 1;
        }
        let r = FieldVector(out);
        assert(r@ =~= fp12_conjugate(fp.modulus(), a@));
        r
    }

    /// The power `a^e` for a non-negative exponent.
    pub fn pow(&self, a: &FieldVector, e: &BigInt) -> (r: FieldVector)
        requires
            self.wf(),
            self.point_wf(a),
            big_value(*e) >= 0,
        ensures
            r@ == fp12_pow(
                self.fp_chip.modulus(),
                self.xi_0 as int,
                a@,
                big_value(*e) as nat,
            ),
            self.point_wf(&r),
            r.reduced(self.fp_chip),
    {
        let ghost p = self.fp_chip.modulus();
        let ghost xi = self.xi_0 as int;
        let two = big_from_u64(2);
        let one = big_from_u64(1);
        let zero = big_zero();
        let mut bits: Vec<bool> = Vec::new();
        let ghost mut quotients: Seq<int> = seq![big_value(*e)];
        let mut q = big_clone(e);
        while !big_eq(&q, &zero)
            invariant
                big_value(two) == 2,
                big_value(one) == 1,
                big_value(zero) == 0,
                big_value(q) >= 0,
                quotients.len() == bits@.len() + 1,
                quotients[0] == big_value(*e),
                quotients.last() == big_value(q),
                forall|i: int|
                    0 <= i < bits@.len() ==> (#[trigger] quotients[i]) > 0 && quotients[i + 1]
                        == quotients[i] / 2 && bits@[i] == (quotients[i] % 2 == 1),
            decreases big_value(q),
        {
            let low = big_rem_euclid(&q, &two);
            let next = big_div_euclid(&q, &two);
            bits.push(big_eq(&low, &one));
            proof {
                quotients = quotients.push(big_value(next));
            }
            q = next;
        }
        let mut acc = self.one();
        let mut i: usize = bits.len();
        while i > 0
            invariant
                i <= bits@.len(),
                self.wf(),
                self.point_wf(a),
                self.point_wf(&acc),
                acc.reduced(self.fp_chip),
                p == self.fp_chip.modulus(),
                xi == self.xi_0 as int,
                quotients.len() == bits@.len() + 1,
                quotients.last() == 0,
                forall|i: int|
                    0 <= i < bits@.len() ==> (#[trigger] quotients[i]) > 0 && quotients[i + 1]
                        == quotients[i] / 2 && bits@[i] == (quotients[i] % 2 == 1),
                acc@ == fp12_pow(p, xi, a@, quotients[i as int] as nat),
            decreases i,
        {
            i = i - 1;
            let square = self.square(&acc);
            assert(quotients[i as int] > 0 && quotients[i + 1] == quotients[i as int] / 2);
            if bits[i] {
                acc = self.mul(&square, a);
            } else {
                acc = square;
            }
        }
        acc
    }

    /// Whether two elements are the same element of the field.
    pub fn is_equal(&self, a: &FieldVector, b: &FieldVector) -> (r: bool)
        requires
            self.wf(),
            self.point_wf(a),
            self.point_wf(b),
        ensures
            r == vec_congruent(self.fp_chip.modulus(), a@, b@),
    {
        self.vector_chip().is_equal(a, b)
    }

    /// The chip of the quadratic extension.
    pub fn fp2(&self) -> (r: Fp2Chip<'a>)
        requires
            self.wf(),
        ensures
            r.fp_chip == self.fp_chip,
            r.wf(),
    {
        Fp2Chip { fp_chip: self.fp_chip }
    }

    /// The table holds the factors of the Frobenius maps of this field.
    pub open spec fn table_wf(&self, table: &FrobeniusTable) -> bool {
        &&& table.coeffs@.len() == 12
        &&& forall|j: int|
            0 <= j < 12 ==> (#[trigger] table.coeffs@[j])@ == frobenius_coeff(
                self.fp_chip.modulus(),
                self.xi_0 as int,
                j as nat,
            ) && table.coeffs@[j].wf(self.fp_chip) && table.coeffs@[j].0@.len() == 2
    }

    /// Computes the factors of the Frobenius maps on `w`.
    pub fn frobenius_table(&self) -> (r: FrobeniusTable)
        requires
            self.wf(),
        ensures
            self.table_wf(&r),
    {
        let fp2 = self.fp2();
        let ghost p = self.fp_chip.modulus();
        let xi_coeffs: Vec<BigInt> = vec![big_from_i64(self.xi_0), big_from_u64(1)];
        let xi = self.vector_chip().load_constant(&xi_coeffs);
        proof {
            assert(big_values(xi_coeffs@)[0] == self.xi_0 && big_values(xi_coeffs@)[1] == 1);
            vstd::arithmetic::div_mod::lemma_small_mod(1, p as nat);
            vstd::arithmetic::div_mod::lemma_small_mod(self.xi_0 as nat, p as nat);
            assert(xi@ =~= seq![self.xi_0 as int, 1int]);
        }
        let one = big_from_u64(1);
        let six = big_from_u64(6);
        let mut coeffs: Vec<FieldVector> = Vec::new();
        let mut power = big_from_u64(1);
        let mut j: usize = 0;
        proof {
            lemma_pow0(p);
        }
        while j < 12
            invariant
                j <= 12,
                self.wf(),
                fp2.fp_chip == self.fp_chip,
                fp2.wf(),
                p == self.fp_chip.modulus(),
                big_value(one) == 1,
                big_value(six) == 6,
                big_value(power) == pow(p, j as nat),
                xi.wf(self.fp_chip),
                xi.0@.len() == 2,
                xi@ == seq![self.xi_0 as int, 1int],
                coeffs@.len() == j,
                forall|t: int|
                    0 <= t < j ==> (#[trigger] coeffs@[t])@ == fp2_pow(
                        p,
                        xi@,
                        ((pow(p, t as nat) - 1) / 6) as nat,
                    ) && coeffs@[t].wf(self.fp_chip) && coeffs@[t].0@.len() == 2,
            decreases 12 - j,
        {
            let exponent = big_div_euclid(&big_sub(&power, &one), &six);
            proof {
                lemma_pow_positive(p, j as nat);
                lemma_pow_adds(p, j as nat, 1);
                lemma_pow1(p);
            }
            let coeff = fp2.pow(&xi, &exponent);
            coeffs.push(coeff);
            power = big_mul(&power, &self.fp_chip.p);
            j = j + 1;
        }
        FrobeniusTable { coeffs }
    }

    /// The coefficient of `w^i` of an element, as an element of `Fp2`.
    pub fn fp2_coeff(&self, a: &FieldVector, i: usize) -> (r: FieldVector)
        requires
            self.wf(),
            self.point_wf(a),
            i < 6,
        ensures
            r@ == seq![a@[i as int], a@[i + 6]],
            r.wf(self.fp_chip),
            r.0@.len() == 2,
    {
        assert(a.0@[i as int].wf(self.fp_chip) && a.0@[i + 6].wf(self.fp_chip));
        let mut out: Vec<FieldElement> = Vec::new();
        out.push(a.0[i].duplicate());
        out.push(a.0[i + 6].duplicate());
        let r = FieldVector(out);
        assert(r@ =~= seq![a@[i as int], a@[i + 6]]);
        r
    }

    /// The element with the given six `Fp2` coefficients of the powers of
    /// `w`.
    pub fn from_fp2_coeffs(&self, coeffs: &Vec<FieldVector>) -> (r: FieldVector)
        requires
            self.wf(),
            coeffs@.len() == 6,
            forall|i: int|
                0 <= i < 6 ==> (#[trigger] coeffs@[i]).wf(self.fp_chip) && coeffs@[i].0@.len() == 2,
        ensures
            r@ == fp12_from_fp2(Seq::new(6, |i: int| coeffs@[i]@)),
            self.point_wf(&r),
    {
        let fp = self.fp_chip;
        let ghost target = fp12_from_fp2(Seq::new(6, |i: int| coeffs@[i]@));
        let mut out: Vec<FieldElement> = Vec::new();
        let mut t: usize = 0;
        while t < 12
            invariant
                t <= 12,
                fp == self.fp_chip,
                coeffs@.len() == 6,
                forall|i: int|
                    0 <= i < 6 ==> (#[trigger] coeffs@[i]).wf(fp) && coeffs@[i].0@.len() == 2,
                target == fp12_from_fp2(Seq::new(6, |i: int| coeffs@[i]@)),
                out@.len() == t,
                forall|s: int| 0 <= s < t ==> (#[trigger] out@[s])@ == target[s] && out@[s].wf(fp),
            decreases 12 - t,
        {
            let power = if t < 6 {
                t
            } else {
                t - 6
            };
            let part: usize = if t < 6 {
                0
            } else {
                1
            };
            assert(coeffs@[power as int].wf(fp));
            assert(coeffs@[power as int].0@[part as int].wf(fp));
            out.push(coeffs[power].0[part].duplicate());
            t = t + 1;
        }
        let r = FieldVector(out);
        assert(r@ =~= target);
        r
    }

    /// The image of an element under `power` applications of the Frobenius
    /// map, with the factors taken from the table.
    pub fn frobenius_map(&self, table: &FrobeniusTable, a: &FieldVector, power: usize) -> (r:
        FieldVector)
        requires
            self.wf(),
            self.table_wf(table),
            self.point_wf(a),
        ensures
            r@ == fp12_frobenius(self.fp_chip.modulus(), self.xi_0 as int, a@, power as nat),
            self.point_wf(&r),
    {
        let fp2 = self.fp2();
        let ghost p = self.fp_chip.modulus();
        let g = &table.coeffs[power % 12];
        assert(g@ == frobenius_coeff(p, self.xi_0 as int, power as nat));
        let mut factor = fp2.one();
        let mut out: Vec<FieldVector> = Vec::new();
        let mut i: usize = 0;
        while i < 6
            invariant
                i <= 6,
                self.wf(),
                self.point_wf(a),
                fp2.fp_chip == self.fp_chip,
                fp2.wf(),
                p == self.fp_chip.modulus(),
                g.wf(self.fp_chip),
                g.0@.len() == 2,
                factor.wf(self.fp_chip),
                factor.0@.len() == 2,
                factor@ == fp2_power_chain(p, g@, i as nat),
                out@.len() == i,
                forall|t: int|
                    0 <= t < i ==> (#[trigger] out@[t])@ == fp2_mul(
                        p,
                        fp2_frobenius(p, seq![a@[t], a@[t + 6]], power as nat),
                        fp2_power_chain(p, g@, t as nat),
                    ) && out@[t].wf(self.fp_chip) && out@[t].0@.len() == 2,
            decreases 6 - i,
        {
            let coeff = self.fp2_coeff(a, i);
            let image = fp2.frobenius_map(&coeff, power);
            out.push(fp2.mul(&image, &factor));
            factor = fp2.mul(&factor, g);
            i = i + 1;
        }
        let r = self.from_fp2_coeffs(&out);
        assert(Seq::new(6, |i: int| out@[i]@) =~= Seq::new(
            6,
            |i: int|
                fp2_mul(
                    p,
                    fp2_frobenius(p, seq![a@[i], a@[i + 6]], power as nat),
                    fp2_power_chain(p, frobenius_coeff(p, self.xi_0 as int, power as nat), i as nat),
                ),
        ));
        r
    }

    /// The chip of the cubic extension.
    pub fn fp6(&self) -> (r: Fp6Chip<'a>)
        requires
            self.wf(),
        ensures
            r.fp_chip == self.fp_chip,
            r.xi_0 == self.xi_0,
            r.wf(),
    {
        Fp6Chip { fp_chip: self.fp_chip, xi_0: self.xi_0 }
    }

    /// The coefficients of the powers of `w` of one parity, as an element
    /// of `Fp6`.
    pub fn half(&self, a: &FieldVector, odd: bool) -> (r: FieldVector)
        requires
            self.wf(),
            self.point_wf(a),
        ensures
            r@ == if odd {
                fp12_odd(a@)
            } else {
                fp12_even(a@)
            },
            r.wf(self.fp_chip),
            r.0@.len() == 6,
    {
        let fp = self.fp_chip;
        let start: usize = if odd {
            1
        } else {
            0
        };
        let mut out: Vec<FieldElement> = Vec::new();
        let mut i: usize = 0;
        while i < 6
            invariant
                i <= 6,
                start <= 1,
                fp == self.fp_chip,
                self.point_wf(a),
                out@.len() == i,
                forall|t: int|
                    0 <= t < i ==> (#[trigger] out@[t])@ == a@[2 * t + start] && out@[t].wf(fp),
            decreases 6 - i,
        {
            assert(a.0@[2 * i + start].wf(fp));
            out.push(a.0[2 * i + start].duplicate());
            i = i + 1;
        }
        let r = FieldVector(out);
        assert(r@ =~= if odd {
            fp12_odd(a@)
        } else {
            fp12_even(a@)
        });
        r
    }

    /// The element `even + w odd` for two elements of `Fp6`.
    pub fn from_halves(&self, even: &FieldVector, odd: &FieldVector) -> (r: FieldVector)
        requires
            self.wf(),
            even.wf(self.fp_chip) && even.0@.len() == 6,
            odd.wf(self.fp_chip) && odd.0@.len() == 6,
        ensures
            r@ == fp12_from_halves(even@, odd@),
            self.point_wf(&r),
            even.reduced(self.fp_chip) && odd.reduced(self.fp_chip) ==> r.reduced(self.fp_chip),
    {
        let fp = self.fp_chip;
        let mut out: Vec<FieldElement> = Vec::new();
        let mut i: usize = 0;
        while i < 6
            invariant
                i <= 6,
                fp == self.fp_chip,
                even.wf(fp) && even.0@.len() == 6,
                odd.wf(fp) && odd.0@.len() == 6,
                out@.len() == 2 * i,
                forall|t: int|
                    0 <= t < 2 * i ==> (#[trigger] out@[t])@ == (if t % 2 == 0 {
                        even@[t / 2]
                    } else {
                        odd@[t / 2]
                    }) && out@[t].wf(fp),
                even.reduced(fp) && odd.reduced(fp) ==> forall|t: int|
                    0 <= t < 2 * i ==> (#[trigger] out@[t]).reduced(fp),
            decreases 6 - i,
        {
            assert(even.0@[i as int].wf(fp) && odd.0@[i as int].wf(fp));
            let e = even.0[i].duplicate();
            let o = odd.0[i].duplicate();
            proof {
                if even.reduced(fp) && odd.reduced(fp) {
                    assert(even.0@[i as int].reduced(fp) && odd.0@[i as int].reduced(fp));
                }
            }
            out.push(e);
            out.push(o);
            i = i + 1;
        }
        let r = FieldVector(out);
        assert(r@ =~= fp12_from_halves(even@, odd@));
        r
    }

    /// The inverse of an element, where it has one.
    pub fn inverse(&self, a: &FieldVector) -> (r: Result<FieldVector, ChipError>)
        requires
            self.wf(),
            self.point_wf(a),
        ensures
            r is Ok <==> fp12_has_inverse(self.fp_chip.modulus(), self.xi_0 as int, a@),
            match r {
                Ok(x) => x@ == fp12_inverse(self.fp_chip.modulus(), self.xi_0 as int, a@)
                    && self.point_wf(&x) && x.reduced(self.fp_chip),
                Err(e) => e == ChipError::ConstraintViolation(Violation::Divisor),
            },
    {
        let fp6 = self.fp6();
        let vectors = self.vector_chip();
        let even = self.half(a, false);
        let odd = self.half(a, true);
        let even_squared = fp6.mul(&even, &even);
        let odd_squared = fp6.mul(&odd, &odd);
        let norm = vectors.sub(&even_squared, &fp6.mul_by_v(&odd_squared));
        assert(norm@.len() == 6);
        match fp6.inverse(&norm) {
            Ok(n) => {
                let re = fp6.mul(&even, &n);
                let im = vectors.negate(&fp6.mul(&odd, &n));
                assert(im@.len() == 6);
                Ok(self.from_halves(&re, &im))
            },
            Err(e) => Err(e),
        }
    }
}

impl<'a> FieldChip for Fp12Chip<'a> {
    type Point = FieldVector;

    open spec fn modulus(&self) -> int {
        self.fp_chip.modulus()
    }

    open spec fn limb_base(&self) -> int {
        self.fp_chip.base()
    }

    open spec fn limb_count(&self) -> nat {
        self.fp_chip.num_limbs as nat
    }

    open spec fn degree(&self) -> nat {
        12
    }

    open spec fn wf(&self) -> bool {
        Fp12Chip::wf(self)
    }

    open spec fn point_wf(&self, a: &FieldVector) -> bool {
        Fp12Chip::point_wf(self, a)
    }

    open spec fn coeffs(&self, a: &FieldVector) -> Seq<int> {
        a@
    }

    open spec fn field_mul(&self, a: Seq<int>, b: Seq<int>) -> Seq<int> {
        fp12_mul(self.fp_chip.modulus(), self.xi_0 as int, a, b)
    }

    open spec fn field_has_inverse(&self, a: Seq<int>) -> bool {
        fp12_has_inverse(self.fp_chip.modulus(), self.xi_0 as int, a)
    }

    open spec fn field_inverse(&self, a: Seq<int>) -> Seq<int> {
        fp12_inverse(self.fp_chip.modulus(), self.xi_0 as int, a)
    }

    fn load_witness(&self, coeffs: &Vec<BigInt>) -> (r: Result<FieldVector, ChipError>) {
        let r = self.vector_chip().load_witness(coeffs);
        proof {
            if r is Ok {
                assert(r->Ok_0@.len() == 12);
            }
        }
        r
    }

    fn load_constant(&self, coeffs: &Vec<BigInt>) -> (r: FieldVector) {
        let r = self.vector_chip().load_constant(coeffs);
        assert(r@.len() == 12);
        r
    }

    fn duplicate(&self, a: &FieldVector) -> (r: FieldVector) {
        let r = a.duplicate(self.fp_chip);
        assert(r@.len() == 12);
        r
    }

    fn enforce_less_than(&self, a: &FieldVector) -> (r: Result<(), ChipError>) {
        proof {
            a.lemma_reduced(self.fp_chip);
        }
        self.vector_chip().enforce_less_than(a)
    }

    fn add(&self, a: &FieldVector, b: &FieldVector) -> (r: FieldVector) {
        let r = self.vector_chip().add(a, b);
        assert(r@.len() == 12);
        r
    }

    fn sub(&self, a: &FieldVector, b: &FieldVector) -> (r: FieldVector) {
        let r = self.vector_chip().sub(a, b);
        assert(r@.len() == 12);
        r
    }

    fn negate(&self, a: &FieldVector) -> (r: FieldVector) {
        let r = self.vector_chip().negate(a);
        assert(r@.len() == 12);
        r
    }

    fn scalar_mul(&self, a: &FieldVector, c: i64) -> (r: FieldVector) {
        let r = self.vector_chip().scalar_mul(a, c);
        assert(r@.len() == 12);
        r
    }

    fn mul(&self, a: &FieldVector, b: &FieldVector) -> (r: FieldVector) {
        Fp12Chip::mul(self, a, b)
    }

    fn divide(&self, a: &FieldVector, b: &FieldVector) -> (r: Result<FieldVector, ChipError>) {
        match self.inverse(b) {
            Ok(inv) => Ok(Fp12Chip::mul(self, a, &inv)),
            Err(e) => Err(e),
        }
    }

    fn is_equal(&self, a: &FieldVector, b: &FieldVector) -> (r: bool) {
        self.vector_chip().is_equal(a, b)
    }
}

} // verus!
