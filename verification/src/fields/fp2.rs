//! The quadratic extension `Fp2 = Fp[u] / (u^2 + 1)`: an element is the
//! vector `[c0, c1]` that stands for `c0 + c1 u`.

use crate::bigint::ResidueInteger;
use crate::bignum::{big_clone, big_div_euclid, big_eq, big_from_u64, big_rem_euclid, big_value};
use crate::errors::{ChipError, Violation};
use crate::fields::FieldChip;
use crate::fields::fp::{magnitude, FieldElement, FpChip, NO_CARRY_HEADROOM};
use crate::fields::vector::{vec_fp_mul, vec_reduce, FieldVector, FieldVectorChip, UnreducedVector};
use crate::limbs::bit_length;
use crate::modular::{has_inverse, inverts, mod_inverse};
use num_bigint::BigInt;
use vstd::prelude::*;

verus! {

/// The congruences of the prime under which the tower is built: `u^2 = -1`
/// has no root, and the Frobenius maps reduce to conjugations and constant
/// factors.
pub open spec fn supports_tower(p: int) -> bool {
    p % 4 == 3 && p % 6 == 1
}

/// The product `(a0 + a1 u)(b0 + b1 u)` with `u^2 = -1`, as integers.
pub open spec fn fp2_mul_no_carry(a: Seq<int>, b: Seq<int>) -> Seq<int> {
    seq![a[0] * b[0] - a[1] * b[1], a[0] * b[1] + a[1] * b[0]]
}

/// The product of two elements of `Fp2`.
pub open spec fn fp2_mul(p: int, a: Seq<int>, b: Seq<int>) -> Seq<int> {
    seq![(a[0] * b[0] - a[1] * b[1]) % p, (a[0] * b[1] + a[1] * b[0]) % p]
}

/// The conjugate `a0 - a1 u`.
pub open spec fn fp2_conjugate(p: int, a: Seq<int>) -> Seq<int> {
    seq![a[0] % p, (-a[1]) % p]
}

/// The norm `a0^2 + a1^2` of an element, in the prime field.
pub open spec fn fp2_norm(p: int, a: Seq<int>) -> int {
    (a[0] * a[0] + a[1] * a[1]) % p
}

/// Whether an element of `Fp2` has an inverse: whether its norm has one.
pub open spec fn fp2_has_inverse(p: int, a: Seq<int>) -> bool {
    has_inverse(fp2_norm(p, a), p)
}

/// The inverse of an element: its conjugate over its norm.
pub open spec fn fp2_inverse(p: int, a: Seq<int>) -> Seq<int> {
    let n = mod_inverse(fp2_norm(p, a), p);
    seq![(a[0] * n) % p, (((-a[1]) % p) * n) % p]
}

/// The image of an element under the Frobenius map `x -> x^p`, taken `power`
/// times: for a prime that is 3 modulo 4 each application conjugates.
pub open spec fn fp2_frobenius(p: int, a: Seq<int>, power: nat) -> Seq<int> {
    if power % 2 == 0 {
        vec_reduce(p, a)
    } else {
        fp2_conjugate(p, a)
    }
}

/// The one of `Fp2`.
pub open spec fn fp2_one() -> Seq<int> {
    seq![1int, 0int]
}

/// The power `a^e` by squaring and multiplying from the top bit of `e`.
pub open spec fn fp2_pow(p: int, a: Seq<int>, e: nat) -> Seq<int>
    decreases e,
{
    if e == 0 {
        fp2_one()
    } else {
        let half = fp2_pow(p, a, e / 2);
        let square = fp2_mul(p, half, half);
        if e % 2 == 1 {
            fp2_mul(p, square, a)
        } else {
            square
        }
    }
}

/// The product of an element with `xi = xi_0 + u`.
pub open spec fn fp2_mul_by_xi(p: int, xi_0: int, a: Seq<int>) -> Seq<int> {
    seq![(xi_0 * a[0] - a[1]) % p, (a[0] + xi_0 * a[1]) % p]
}

/// If `x = y + p k` then `x` and `y` leave the same remainder modulo `p`.
proof fn lemma_same_remainder(x: int, y: int, k: int, p: int)
    requires
        p > 0,
        x == y + p * k,
    ensures
        x % p == y % p,
{
    vstd::arithmetic::div_mod::lemma_mod_multiples_vanish(k, y, p);
    assert(p * k + y == x);
}

/// An element of `Fp2` whose norm has an inverse in the prime field, times
/// the inverse that the library names, is the one of `Fp2`.
pub proof fn lemma_fp2_inverse(p: int, a: Seq<int>)
    requires
        p > 1,
        a.len() == 2,
        fp2_has_inverse(p, a),
    ensures
        fp2_mul(p, a, fp2_inverse(p, a)) == fp2_one(),
{
    let a0 = a[0];
    let a1 = a[1];
    let norm = fp2_norm(p, a);
    let n = mod_inverse(norm, p);
    let t = (-a1) % p;
    let i0 = (a0 * n) % p;
    let i1 = (t * n) % p;
    // Every remainder is its number less a multiple of p.
    let k0 = (a0 * n) / p;
    let k1 = (t * n) / p;
    let k2 = (-a1) / p;
    let k3 = (a0 * a0 + a1 * a1) / p;
    let k4 = (norm * n) / p;
    vstd::arithmetic::div_mod::lemma_fundamental_div_mod(a0 * n, p);
    vstd::arithmetic::div_mod::lemma_fundamental_div_mod(t * n, p);
    vstd::arithmetic::div_mod::lemma_fundamental_div_mod(-a1, p);
    vstd::arithmetic::div_mod::lemma_fundamental_div_mod(a0 * a0 + a1 * a1, p);
    vstd::arithmetic::div_mod::lemma_fundamental_div_mod(norm * n, p);
    vstd::arithmetic::div_mod::lemma_small_mod(1, p as nat);
    assert(inverts(norm, n, p));
    assert(norm * n == p * k4 + 1);
    let re = a0 * i0 - a1 * i1;
    let im = a0 * i1 + a1 * i0;
    // The products that occur, each as one number.
    let a0k0 = a0 * k0;
    let a1k0 = a1 * k0;
    let a0k1 = a0 * k1;
    let a1k1 = a1 * k1;
    let k2n = k2 * n;
    let a0k2n = a0 * k2n;
    let a1k2n = a1 * k2n;
    let k3n = k3 * n;
    let a0a0n = (a0 * a0) * n;
    let a1a1n = (a1 * a1) * n;
    let a0a1n = (a0 * a1) * n;
    assert(a0 * i0 == a0a0n - p * a0k0) by (nonlinear_arith)
        requires
            a0 * n == p * k0 + i0,
            a0k0 == a0 * k0,
            a0a0n == (a0 * a0) * n,
    ;
    assert(a1 * i0 == a0a1n - p * a1k0) by (nonlinear_arith)
        requires
            a0 * n == p * k0 + i0,
            a1k0 == a1 * k0,
            a0a1n == (a0 * a1) * n,
    ;
    assert(t * n == -(a1 * n) - p * k2n) by (nonlinear_arith)
        requires
            -a1 == p * k2 + t,
            k2n == k2 * n,
    ;
    assert(i1 == -(a1 * n) - p * k2n - p * k1);
    assert(a1 * i1 == -a1a1n - p * a1k2n - p * a1k1) by (nonlinear_arith)
        requires
            i1 == -(a1 * n) - p * k2n - p * k1,
            a1k2n == a1 * k2n,
            a1k1 == a1 * k1,
            a1a1n == (a1 * a1) * n,
    ;
    assert(a0 * i1 == -a0a1n - p * a0k2n - p * a0k1) by (nonlinear_arith)
        requires
            i1 == -(a1 * n) - p * k2n - p * k1,
            a0k2n == a0 * k2n,
            a0k1 == a0 * k1,
            a0a1n == (a0 * a1) * n,
    ;
    assert(a0a0n + a1a1n == norm * n + p * k3n) by (nonlinear_arith)
        requires
            a0 * a0 + a1 * a1 == p * k3 + norm,
            k3n == k3 * n,
            a0a0n == (a0 * a0) * n,
            a1a1n == (a1 * a1) * n,
    ;
    let k_re = k4 + k3n - a0k0 + a1k2n + a1k1;
    let k_im = -a1k0 - a0k2n - a0k1;
    assert(re == 1 + p * k4 + p * k3n - p * a0k0 + p * a1k2n + p * a1k1);
    assert(im == -(p * a1k0) - p * a0k2n - p * a0k1);
    assert(p * k_re == p * k4 + p * k3n - p * a0k0 + p * a1k2n + p * a1k1) by (nonlinear_arith)
        requires
            k_re == k4 + k3n - a0k0 + a1k2n + a1k1,
    ;
    assert(p * k_im == -(p * a1k0) - p * a0k2n - p * a0k1) by (nonlinear_arith)
        requires
            k_im == -a1k0 - a0k2n - a0k1,
    ;
    lemma_same_remainder(re, 1, k_re, p);
    lemma_same_remainder(im, 0, k_im, p);
    vstd::arithmetic::div_mod::lemma_small_mod(0, p as nat);
    assert(fp2_inverse(p, a)[0] == i0 && fp2_inverse(p, a)[1] == i1);
    assert(fp2_mul(p, a, fp2_inverse(p, a)) =~= fp2_one());
}

/// The chip of the quadratic extension over the field of `fp_chip`.
pub struct Fp2Chip<'a> {
    pub fp_chip: &'a FpChip,
}

impl<'a> Fp2Chip<'a> {
    /// The chip is set up over a field whose prime supports the tower.
    pub open spec fn wf(&self) -> bool {
        &&& self.fp_chip.wf()
        &&& supports_tower(self.fp_chip.modulus())
    }

    /// The element has two coefficients in carried form.
    pub open spec fn point_wf(&self, a: &FieldVector) -> bool {
        a.wf(self.fp_chip) && a.0@.len() == 2
    }

    /// Sets up the extension over `fp_chip`, which fails unless the prime is
    /// 3 modulo 4 and 1 modulo 6.
    pub fn new(fp_chip: &'a FpChip) -> (r: Result<Self, ChipError>)
        ensures
            r is Ok <==> supports_tower(fp_chip.modulus()),
            match r {
                Ok(chip) => chip.fp_chip == fp_chip,
                Err(e) => e == ChipError::UnsupportedModulus,
            },
    {
        let by_four = big_rem_euclid(&fp_chip.p, &big_from_u64(4));
        let by_six = big_rem_euclid(&fp_chip.p, &big_from_u64(6));
        if big_eq(&by_four, &big_from_u64(3)) && big_eq(&by_six, &big_from_u64(1)) {
            Ok(Fp2Chip { fp_chip })
        } else {
            Err(ChipError::UnsupportedModulus)
        }
    }

    /// The chip for the coefficient-wise operations.
    pub fn vector_chip(&self) -> (r: FieldVectorChip<'a>)
        ensures
            r.fp_chip == self.fp_chip,
    {
        FieldVectorChip::new(self.fp_chip)
    }

    /// Builds the element `c0 + c1 u`.
    pub fn construct(&self, c0: FieldElement, c1: FieldElement) -> (r: FieldVector)
        requires
            c0.wf(self.fp_chip),
            c1.wf(self.fp_chip),
        ensures
            r@ == seq![c0@, c1@],
            self.point_wf(&r),
            c0.reduced(self.fp_chip) && c1.reduced(self.fp_chip) ==> r.reduced(self.fp_chip),
    {
        let mut out: Vec<FieldElement> = Vec::new();
        out.push(c0);
        out.push(c1);
        let r = FieldVector(out);
        assert(r@ =~= seq![c0@, c1@]);
        r
    }

    /// The product of two elements, without reduction.
    pub fn mul_no_carry(&self, a: &FieldVector, b: &FieldVector) -> (r: UnreducedVector)
        requires
            self.wf(),
            self.point_wf(a),
            self.point_wf(b),
        ensures
            r@ == fp2_mul_no_carry(a@, b@),
            r.wf(self.fp_chip),
            r.0@.len() == 2,
            r.within((self.fp_chip.product_bits + 1) as nat),
    {
        let fp = self.fp_chip;
        assert(a.0@[0].wf(fp) && a.0@[1].wf(fp) && b.0@[0].wf(fp) && b.0@[1].wf(fp));
        let a0b0 = fp.mul_no_carry(&a.0[0], &b.0[0]);
        let a1b1 = fp.mul_no_carry(&a.0[1], &b.0[1]);
        let a0b1 = fp.mul_no_carry(&a.0[0], &b.0[1]);
        let a1b0 = fp.mul_no_carry(&a.0[1], &b.0[0]);
        let c0 = fp.sub_no_carry(&a0b0, &a1b1);
        let c1 = fp.add_no_carry(&a0b1, &a1b0);
        let mut out: Vec<ResidueInteger> = Vec::new();
        out.push(c0);
        out.push(c1);
        let r = UnreducedVector(out);
        assert(r@ =~= fp2_mul_no_carry(a@, b@));
        r
    }

    /// The product of two elements.
    pub fn mul(&self, a: &FieldVector, b: &FieldVector) -> (r: FieldVector)
        requires
            self.wf(),
            self.point_wf(a),
            self.point_wf(b),
        ensures
            r@ == fp2_mul(self.fp_chip.modulus(), a@, b@),
            self.point_wf(&r),
            r.reduced(self.fp_chip),
    {
        let product = self.mul_no_carry(a, b);
        let r = self.vector_chip().carry_mod(&product);
        assert(r@ =~= fp2_mul(self.fp_chip.modulus(), a@, b@));
        r
    }

    /// The conjugate of an element.
    pub fn conjugate(&self, a: &FieldVector) -> (r: FieldVector)
        requires
            self.wf(),
            self.point_wf(a),
        ensures
            r@ == fp2_conjugate(self.fp_chip.modulus(), a@),
            self.point_wf(&r),
            r.reduced(self.fp_chip),
    {
        let fp = self.fp_chip;
        assert(a.0@[0].wf(fp) && a.0@[1].wf(fp));
        let c0 = fp.carry_mod(&a.0[0].0);
        let c1 = fp.negate(&a.0[1]);
        self.construct(c0, c1)
    }

    /// The image of an element under `power` applications of the Frobenius
    /// map.
    pub fn frobenius_map(&self, a: &FieldVector, power: usize) -> (r: FieldVector)
        requires
            self.wf(),
            self.point_wf(a),
        ensures
            r@ == fp2_frobenius(self.fp_chip.modulus(), a@, power as nat),
            self.point_wf(&r),
            r.reduced(self.fp_chip),
    {
        if power % 2 == 0 {
            let fp = self.fp_chip;
            assert(a.0@[0].wf(fp) && a.0@[1].wf(fp));
            let c0 = fp.carry_mod(&a.0[0].0);
            let c1 = fp.carry_mod(&a.0[1].0);
            let r = self.construct(c0, c1);
            assert(r@ =~= vec_reduce(fp.modulus(), a@));
            r
        } else {
            self.conjugate(a)
        }
    }

    /// The inverse of an element, where it has one.
    pub fn inverse(&self, a: &FieldVector) -> (r: Result<FieldVector, ChipError>)
        requires
            self.wf(),
            self.point_wf(a),
        ensures
            r is Ok <==> fp2_has_inverse(self.fp_chip.modulus(), a@),
            match r {
                Ok(x) => x@ == fp2_inverse(self.fp_chip.modulus(), a@) && fp2_mul(
                    self.fp_chip.modulus(),
                    a@,
                    x@,
                ) == fp2_one() && self.point_wf(&x) && x.reduced(self.fp_chip),
                Err(e) => e == ChipError::ConstraintViolation(Violation::Divisor),
            },
    {
        let fp = self.fp_chip;
        assert(a.0@[0].wf(fp) && a.0@[1].wf(fp));
        proof {
            if fp2_has_inverse(fp.modulus(), a@) {
                lemma_fp2_inverse(fp.modulus(), a@);
            }
        }
        let a0a0 = fp.mul_no_carry(&a.0[0], &a.0[0]);
        let a1a1 = fp.mul_no_carry(&a.0[1], &a.0[1]);
        let sum = fp.add_no_carry(&a0a0, &a1a1);
        let norm = fp.carry_mod(&sum);
        match fp.inverse(&norm) {
            Ok(n) => {
                let c0 = fp.mul(&a.0[0], &n);
                let minus_a1 = fp.negate(&a.0[1]);
                let c1 = fp.mul(&minus_a1, &n);
                Ok(self.construct(c0, c1))
            },
            Err(e) => Err(e),
        }
    }

    /// Every coefficient times one element of the prime field.
    pub fn fp_mul(&self, a: &FieldVector, c: &FieldElement) -> (r: FieldVector)
        requires
            self.wf(),
            self.point_wf(a),
            c.wf(self.fp_chip),
        ensures
            r@ == vec_fp_mul(self.fp_chip.modulus(), a@, c@),
            self.point_wf(&r),
            r.reduced(self.fp_chip),
    {
        let r = self.vector_chip().fp_mul(a, c);
        assert(r@.len() == a@.len());
        r
    }

    /// The one of the field.
    pub fn one(&self) -> (r: FieldVector)
        requires
            self.wf(),
        ensures
            r@ == fp2_one(),
            self.point_wf(&r),
            r.reduced(self.fp_chip),
    {
        let fp = self.fp_chip;
        let c0 = fp.load_constant(&big_from_u64(1));
        let c1 = fp.load_constant(&big_from_u64(0));
        proof {
            let p = fp.modulus();
            vstd::arithmetic::div_mod::lemma_small_mod(1, p as nat);
            vstd::arithmetic::div_mod::lemma_small_mod(0, p as nat);
        }
        self.construct(c0, c1)
    }

    /// The product of an element with `xi = xi_0 + u` for a small `xi_0`.
    pub fn mul_by_xi(&self, a: &FieldVector, xi_0: i64) -> (r: FieldVector)
        requires
            self.wf(),
            self.point_wf(a),
            bit_length(magnitude(xi_0 as int)) + 1 <= NO_CARRY_HEADROOM,
        ensures
            r@ == fp2_mul_by_xi(self.fp_chip.modulus(), xi_0 as int, a@),
            self.point_wf(&r),
            r.reduced(self.fp_chip),
    {
        let fp = self.fp_chip;
        assert(a.0@[0].wf(fp) && a.0@[1].wf(fp));
        let xi_a0 = fp.scalar_mul_no_carry(&a.0[0].0, xi_0);
        let xi_a1 = fp.scalar_mul_no_carry(&a.0[1].0, xi_0);
        let c0 = fp.sub_no_carry(&xi_a0, &a.0[1].0);
        let c1 = fp.add_no_carry(&a.0[0].0, &xi_a1);
        let r0 = fp.carry_mod(&c0);
        let r1 = fp.carry_mod(&c1);
        self.construct(r0, r1)
    }

    /// The power `a^e` for a non-negative exponent.
    pub fn pow(&self, a: &FieldVector, e: &BigInt) -> (r: FieldVector)
        requires
            self.wf(),
            self.point_wf(a),
            big_value(*e) >= 0,
        ensures
            r@ == fp2_pow(self.fp_chip.modulus(), a@, big_value(*e) as nat),
            self.point_wf(&r),
            r.reduced(self.fp_chip),
    {
        let ghost p = self.fp_chip.modulus();
        let two = big_from_u64(2);
        let one = big_from_u64(1);
        let zero = big_from_u64(0);
        let mut bits: Vec<bool> = Vec::new();
        let ghost mut quotients: Seq<int> = seq![big_value(*e)];
        let mut q = big_clone(e);
        while !big_eq(&q, &zero)
            invariant
                big_value(two) == 2,
                big_value(one) == 1,
                big_value(zero) == 0,
                big_value(q) >= 0,
                quotients.len() == bits@.len() + 1,
                quotients[0] == big_value(*e),
                quotients.last() == big_value(q),
                forall|i: int|
                    0 <= i < bits@.len() ==> (#[trigger] quotients[i]) > 0 && quotients[i + 1]
                        == quotients[i] / 2 && bits@[i] == (quotients[i] % 2 == 1),
            decreases big_value(q),
        {
            let low = big_rem_euclid(&q, &two);
            let next = big_div_euclid(&q, &two);
            bits.push(big_eq(&low, &one));
            proof {
                quotients = quotients.push(big_value(next));
            }
            q = next;
        }
        let mut acc = self.one();
        let mut i: usize = bits.len();
        while i > 0
            invariant
                i <= bits@.len(),
                self.wf(),
                self.point_wf(a),
                self.point_wf(&acc),
                acc.reduced(self.fp_chip),
                p == self.fp_chip.modulus(),
                quotients.len() == bits@.len() + 1,
                quotients.last() == 0,
                forall|i: int|
                    0 <= i < bits@.len() ==> (#[trigger] quotients[i]) > 0 && quotients[i + 1]
                        == quotients[i] / 2 && bits@[i] == (quotients[i] % 2 == 1),
                acc@ == fp2_pow(p, a@, quotients[i as int] as nat),
            decreases i,
        {
            i = i - 1;
            let square = self.mul(&acc, &acc);
            assert(quotients[i as int] > 0 && quotients[i + 1] == quotients[i as int] / 2);
            if bits[i] {
                acc = self.mul(&square, a);
            } else {
                acc = square;
            }
        }
        acc
    }
}

impl<'a> FieldChip for Fp2Chip<'a> {
    type Point = FieldVector;

    open spec fn modulus(&self) -> int {
        self.fp_chip.modulus()
    }

    open spec fn limb_base(&self) -> int {
        self.fp_chip.base()
    }

    open spec fn limb_count(&self) -> nat {
        self.fp_chip.num_limbs as nat
    }

    open spec fn degree(&self) -> nat {
        2
    }

    open spec fn wf(&self) -> bool {
        Fp2Chip::wf(self)
    }

    open spec fn point_wf(&self, a: &FieldVector) -> bool {
        Fp2Chip::point_wf(self, a)
    }

    open spec fn coeffs(&self, a: &FieldVector) -> Seq<int> {
        a@
    }

    open spec fn field_mul(&self, a: Seq<int>, b: Seq<int>) -> Seq<int> {
        fp2_mul(self.fp_chip.modulus(), a, b)
    }

    open spec fn field_has_inverse(&self, a: Seq<int>) -> bool {
        fp2_has_inverse(self.fp_chip.modulus(), a)
    }

    open spec fn field_inverse(&self, a: Seq<int>) -> Seq<int> {
        fp2_inverse(self.fp_chip.modulus(), a)
    }

    fn load_witness(&self, coeffs: &Vec<BigInt>) -> (r: Result<FieldVector, ChipError>) {
        let r = self.vector_chip().load_witness(coeffs);
        proof {
            if r is Ok {
                assert(r->Ok_0@.len() == 2);
            }
        }
        r
    }

    fn load_constant(&self, coeffs: &Vec<BigInt>) -> (r: FieldVector) {
        let r = self.vector_chip().load_constant(coeffs);
        assert(r@.len() == 2);
        r
    }

    fn duplicate(&self, a: &FieldVector) -> (r: FieldVector) {
        let r = a.duplicate(self.fp_chip);
        assert(r@.len() == 2);
        r
    }

    fn enforce_less_than(&self, a: &FieldVector) -> (r: Result<(), ChipError>) {
        proof {
            a.lemma_reduced(self.fp_chip);
        }
        self.vector_chip().enforce_less_than(a)
    }

    fn add(&self, a: &FieldVector, b: &FieldVector) -> (r: FieldVector) {
        let r = self.vector_chip().add(a, b);
        assert(r@.len() == 2);
        r
    }

    fn sub(&self, a: &FieldVector, b: &FieldVector) -> (r: FieldVector) {
        let r = self.vector_chip().sub(a, b);
        assert(r@.len() == 2);
        r
    }

    fn negate(&self, a: &FieldVector) -> (r: FieldVector) {
        let r = self.vector_chip().negate(a);
        assert(r@.len() == 2);
        r
    }

    fn scalar_mul(&self, a: &FieldVector, c: i64) -> (r: FieldVector) {
        let r = self.vector_chip().scalar_mul(a, c);
        assert(r@.len() == 2);
        r
    }

    fn mul(&self, a: &FieldVector, b: &FieldVector) -> (r: FieldVector) {
        Fp2Chip::mul(self, a, b)
    }

    fn divide(&self, a: &FieldVector, b: &FieldVector) -> (r: Result<FieldVector, ChipError>) {
        match self.inverse(b) {
            Ok(inv) => Ok(Fp2Chip::mul(self, a, &inv)),
            Err(e) => Err(e),
        }
    }

    fn is_equal(&self, a: &FieldVector, b: &FieldVector) -> (r: bool) {
        self.vector_chip().is_equal(a, b)
    }
}

} // verus!
