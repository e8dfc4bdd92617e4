//! The cubic extension `Fp6 = Fp2[v] / (v^3 - xi)` with `xi = xi_0 + u`,
//! the level of the tower between `Fp2` and `Fp12`, where `v = w^2`. An
//! element is a vector of six coefficients:
//! `sum over i < 3 of (c[i] + c[i + 3] u) v^i`.

use crate::errors::{ChipError, Violation};
use crate::fields::FieldChip;
use crate::fields::fp12::{Fp12Chip, MAX_XI_BITS};
use crate::fields::fp2::{
    fp2_has_inverse, fp2_inverse, fp2_mul, fp2_mul_by_xi, supports_tower, Fp2Chip,
};
use crate::fields::fp::{FieldElement, FpChip};
use crate::fields::vector::{vec_add, vec_reduce, vec_sub, FieldVector, FieldVectorChip};
use crate::limbs::bit_length;
use num_bigint::BigInt;
use vstd::prelude::*;

verus! {

/// The coefficient of `v^i` of an element, as an element of `Fp2`.
pub open spec fn fp6_part(a: Seq<int>, i: int) -> Seq<int> {
    seq![a[i], a[i + 3]]
}

/// The element `c0 + c1 v + c2 v^2`.
pub open spec fn fp6_from_fp2(c0: Seq<int>, c1: Seq<int>, c2: Seq<int>) -> Seq<int> {
    seq![c0[0], c1[0], c2[0], c0[1], c1[1], c2[1]]
}

/// The product of two elements of `Fp6`, with `v^3 = xi`.
pub open spec fn fp6_mul(p: int, xi_0: int, a: Seq<int>, b: Seq<int>) -> Seq<int> {
    let a0 = fp6_part(a, 0);
    let a1 = fp6_part(a, 1);
    let a2 = fp6_part(a, 2);
    let b0 = fp6_part(b, 0);
    let b1 = fp6_part(b, 1);
    let b2 = fp6_part(b, 2);
    let c0 = vec_add(
        p,
        fp2_mul(p, a0, b0),
        fp2_mul_by_xi(p, xi_0, vec_add(p, fp2_mul(p, a1, b2), fp2_mul(p, a2, b1))),
    );
    let c1 = vec_add(
        p,
        vec_add(p, fp2_mul(p, a0, b1), fp2_mul(p, a1, b0)),
        fp2_mul_by_xi(p, xi_0, fp2_mul(p, a2, b2)),
    );
    let c2 = vec_add(
        p,
        vec_add(p, fp2_mul(p, a0, b2), fp2_mul(p, a1, b1)),
        fp2_mul(p, a2, b0),
    );
    fp6_from_fp2(c0, c1, c2)
}

/// The product of an element with `v`.
pub open spec fn fp6_mul_by_v(p: int, xi_0: int, a: Seq<int>) -> Seq<int> {
    fp6_from_fp2(
        fp2_mul_by_xi(p, xi_0, fp6_part(a, 2)),
        vec_reduce(p, fp6_part(a, 0)),
        vec_reduce(p, fp6_part(a, 1)),
    )
}

/// The three `Fp2` coefficients `t0, t1, t2` of the adjugate of an element
/// `c0 + c1 v + c2 v^2`: `t0 = c0^2 - xi c1 c2`, `t1 = xi c2^2 - c0 c1`,
/// `t2 = c1^2 - c0 c2`. The product of the element with its adjugate lies
/// in `Fp2`.
pub open spec fn fp6_adjugate(p: int, xi_0: int, a: Seq<int>) -> (Seq<int>, Seq<int>, Seq<int>) {
    let c0 = fp6_part(a, 0);
    let c1 = fp6_part(a, 1);
    let c2 = fp6_part(a, 2);
    (
        vec_sub(p, fp2_mul(p, c0, c0), fp2_mul_by_xi(p, xi_0, fp2_mul(p, c1, c2))),
        vec_sub(p, fp2_mul_by_xi(p, xi_0, fp2_mul(p, c2, c2)), fp2_mul(p, c0, c1)),
        vec_sub(p, fp2_mul(p, c1, c1), fp2_mul(p, c0, c2)),
    )
}

/// The product of an element with its adjugate, in `Fp2`:
/// `c0 t0 + xi (c2 t1 + c1 t2)`.
pub open spec fn fp6_norm(p: int, xi_0: int, a: Seq<int>) -> Seq<int> {
    let t = fp6_adjugate(p, xi_0, a);
    vec_add(
        p,
        fp2_mul(p, fp6_part(a, 0), t.0),
        fp2_mul_by_xi(
            p,
            xi_0,
            vec_add(p, fp2_mul(p, fp6_part(a, 2), t.1), fp2_mul(p, fp6_part(a, 1), t.2)),
        ),
    )
}

/// Whether an element of `Fp6` has an inverse: whether its norm has one.
pub open spec fn fp6_has_inverse(p: int, xi_0: int, a: Seq<int>) -> bool {
    fp2_has_inverse(p, fp6_norm(p, xi_0, a))
}

/// The inverse of an element: its adjugate over its norm.
pub open spec fn fp6_inverse(p: int, xi_0: int, a: Seq<int>) -> Seq<int> {
    let t = fp6_adjugate(p, xi_0, a);
    let n = fp2_inverse(p, fp6_norm(p, xi_0, a));
    fp6_from_fp2(fp2_mul(p, t.0, n), fp2_mul(p, t.1, n), fp2_mul(p, t.2, n))
}

/// The chip of the cubic extension over the quadratic extension of the
/// field of `fp_chip`.
pub struct Fp6Chip<'a> {
    pub fp_chip: &'a FpChip,
    pub xi_0: i64,
}

impl<'a> Fp6Chip<'a> {
    /// The chip is set up over a field whose prime supports the tower, with
    /// a small positive `xi_0` below the prime.
    pub open spec fn wf(&self) -> bool {
        &&& self.fp_chip.wf()
        &&& supports_tower(self.fp_chip.modulus())
        &&& 1 <= self.xi_0 < self.fp_chip.modulus()
        &&& bit_length(self.xi_0 as nat) <= MAX_XI_BITS
    }

    /// The element has six coefficients in carried form.
    pub open spec fn point_wf(&self, a: &FieldVector) -> bool {
        a.wf(self.fp_chip) && a.0@.len() == 6
    }

    /// Sets up the extension over `fp_chip` with `v^3 = xi_0 + u`.
    pub fn new(fp_chip: &'a FpChip, xi_0: i64) -> (r: Result<Self, ChipError>)
        ensures
            match r {
                Ok(chip) => chip.fp_chip == fp_chip && chip.xi_0 == xi_0 && supports_tower(
                    fp_chip.modulus(),
                ) && 1 <= xi_0 < fp_chip.modulus() && bit_length(xi_0 as nat) <= MAX_XI_BITS,
                Err(e) => if !supports_tower(fp_chip.modulus()) {
                    e == ChipError::UnsupportedModulus
                } else {
                    e == ChipError::BoundExceeded && !(1 <= xi_0 < fp_chip.modulus() && bit_length(
                        xi_0 as nat,
                    ) <= MAX_XI_BITS)
                },
            },
    {
        match Fp12Chip::new(fp_chip, xi_0) {
            Ok(_) => Ok(Fp6Chip { fp_chip, xi_0 }),
            Err(e) => Err(e),
        }
    }

    /// The chip of the quadratic extension.
    pub fn fp2(&self) -> (r: Fp2Chip<'a>)
        requires
            self.wf(),
        ensures
            r.fp_chip == self.fp_chip,
            r.wf(),
    {
        Fp2Chip { fp_chip: self.fp_chip }
    }

    /// The chip for the coefficient-wise operations.
    pub fn vector_chip(&self) -> (r: FieldVectorChip<'a>)
        ensures
            r.fp_chip == self.fp_chip,
    {
        FieldVectorChip::new(self.fp_chip)
    }

    /// The coefficient of `v^i` of an element.
    pub fn part(&self, a: &FieldVector, i: usize) -> (r: FieldVector)
        requires
            self.wf(),
            self.point_wf(a),
            i < 3,
        ensures
            r@ == fp6_part(a@, i as int),
            r.wf(self.fp_chip),
            r.0@.len() == 2,
    {
        assert(a.0@[i as int].wf(self.fp_chip) && a.0@[i + 3].wf(self.fp_chip));
        let mut out: Vec<FieldElement> = Vec::new();
        out.push(a.0[i].duplicate());
        out.push(a.0[i + 3].duplicate());
        let r = FieldVector(out);
        assert(r@ =~= fp6_part(a@, i as int));
        r
    }

    /// The element `c0 + c1 v + c2 v^2`.
    pub fn construct(&self, c0: &FieldVector, c1: &FieldVector, c2: &FieldVector) -> (r:
        FieldVector)
        requires
            self.wf(),
            c0.wf(self.fp_chip) && c0.0@.len() == 2,
            c1.wf(self.fp_chip) && c1.0@.len() == 2,
            c2.wf(self.fp_chip) && c2.0@.len() == 2,
        ensures
            r@ == fp6_from_fp2(c0@, c1@, c2@),
            self.point_wf(&r),
            c0.reduced(self.fp_chip) && c1.reduced(self.fp_chip) && c2.reduced(self.fp_chip)
                ==> r.reduced(self.fp_chip),
    {
        let fp = self.fp_chip;
        assert(c0.0@[0].wf(fp) && c0.0@[1].wf(fp));
        assert(c1.0@[0].wf(fp) && c1.0@[1].wf(fp));
        assert(c2.0@[0].wf(fp) && c2.0@[1].wf(fp));
        let mut out: Vec<FieldElement> = Vec::new();
        out.push(c0.0[0].duplicate());
        out.push(c1.0[0].duplicate());
        out.push(c2.0[0].duplicate());
        out.push(c0.0[1].duplicate());
        out.push(c1.0[1].duplicate());
        out.push(c2.0[1].duplicate());
        let r = FieldVector(out);
        assert(r@ =~= fp6_from_fp2(c0@, c1@, c2@));
        assert(c0.reduced(fp) && c1.reduced(fp) && c2.reduced(fp) ==> r.reduced(fp)) by {
            if c0.reduced(fp) && c1.reduced(fp) && c2.reduced(fp) {
                assert(c0.0@[0].reduced(fp) && c0.0@[1].reduced(fp));
                assert(c1.0@[0].reduced(fp) && c1.0@[1].reduced(fp));
                assert(c2.0@[0].reduced(fp) && c2.0@[1].reduced(fp));
            }
        }
        r
    }

    /// The product of two elements.
    pub fn mul(&self, a: &FieldVector, b: &FieldVector) -> (r: FieldVector)
        requires
            self.wf(),
            self.point_wf(a),
            self.point_wf(b),
        ensures
            r@ == fp6_mul(self.fp_chip.modulus(), self.xi_0 as int, a@, b@),
            self.point_wf(&r),
            r.reduced(self.fp_chip),
    {
        let fp2 = self.fp2();
        let a0 = self.part(a, 0);
        let a1 = self.part(a, 1);
        let a2 = self.part(a, 2);
        let b0 = self.part(b, 0);
        let b1 = self.part(b, 1);
        let b2 = self.part(b, 2);
        let wrapped_0 = fp2.add(&fp2.mul(&a1, &b2), &fp2.mul(&a2, &b1));
        let c0 = fp2.add(&fp2.mul(&a0, &b0), &fp2.mul_by_xi(&wrapped_0, self.xi_0));
        let plain_1 = fp2.add(&fp2.mul(&a0, &b1), &fp2.mul(&a1, &b0));
        let c1 = fp2.add(&plain_1, &fp2.mul_by_xi(&fp2.mul(&a2, &b2), self.xi_0));
        let plain_2 = fp2.add(&fp2.mul(&a0, &b2), &fp2.mul(&a1, &b1));
        let c2 = fp2.add(&plain_2, &fp2.mul(&a2, &b0));
        proof {
            c0.lemma_reduced(self.fp_chip);
            c1.lemma_reduced(self.fp_chip);
            c2.lemma_reduced(self.fp_chip);
        }
        self.construct(&c0, &c1, &c2)
    }

    /// The product of an element with `v`.
    pub fn mul_by_v(&self, a: &FieldVector) -> (r: FieldVector)
        requires
            self.wf(),
            self.point_wf(a),
        ensures
            r@ == fp6_mul_by_v(self.fp_chip.modulus(), self.xi_0 as int, a@),
            self.point_wf(&r),
            r.reduced(self.fp_chip),
    {
        let fp2 = self.fp2();
        let a0 = self.part(a, 0);
        let a1 = self.part(a, 1);
        let a2 = self.part(a, 2);
        let c0 = fp2.mul_by_xi(&a2, self.xi_0);
        let c1 = fp2.frobenius_map(&a0, 0);
        let c2 = fp2.frobenius_map(&a1, 0);
        self.construct(&c0, &c1, &c2)
    }

    /// The inverse of an element, where it has one.
    pub fn inverse(&self, a: &FieldVector) -> (r: Result<FieldVector, ChipError>)
        requires
            self.wf(),
            self.point_wf(a),
        ensures
            r is Ok <==> fp6_has_inverse(self.fp_chip.modulus(), self.xi_0 as int, a@),
            match r {
                Ok(x) => x@ == fp6_inverse(self.fp_chip.modulus(), self.xi_0 as int, a@)
                    && self.point_wf(&x) && x.reduced(self.fp_chip),
                Err(e) => e == ChipError::ConstraintViolation(Violation::Divisor),
            },
    {
        let fp2 = self.fp2();
        let c0 = self.part(a, 0);
        let c1 = self.part(a, 1);
        let c2 = self.part(a, 2);
        let t0 = fp2.sub(&fp2.mul(&c0, &c0), &fp2.mul_by_xi(&fp2.mul(&c1, &c2), self.xi_0));
        let t1 = fp2.sub(&fp2.mul_by_xi(&fp2.mul(&c2, &c2), self.xi_0), &fp2.mul(&c0, &c1));
        let t2 = fp2.sub(&fp2.mul(&c1, &c1), &fp2.mul(&c0, &c2));
        let inner = fp2.add(&fp2.mul(&c2, &t1), &fp2.mul(&c1, &t2));
        let norm = fp2.add(&fp2.mul(&c0, &t0), &fp2.mul_by_xi(&inner, self.xi_0));
        match fp2.inverse(&norm) {
            Ok(n) => {
                let r0 = fp2.mul(&t0, &n);
                let r1 = fp2.mul(&t1, &n);
                let r2 = fp2.mul(&t2, &n);
                Ok(self.construct(&r0, &r1, &r2))
            },
            Err(e) => Err(e),
        }
    }
}

impl<'a> FieldChip for Fp6Chip<'a> {
    type Point = FieldVector;

    open spec fn modulus(&self) -> int {
        self.fp_chip.modulus()
    }

    open spec fn limb_base(&self) -> int {
        self.fp_chip.base()
    }

    open spec fn limb_count(&self) -> nat {
        self.fp_chip.num_limbs as nat
    }

    open spec fn degree(&self) -> nat {
        6
    }

    open spec fn wf(&self) -> bool {
        Fp6Chip::wf(self)
    }

    open spec fn point_wf(&self, a: &FieldVector) -> bool {
        Fp6Chip::point_wf(self, a)
    }

    open spec fn coeffs(&self, a: &FieldVector) -> Seq<int> {
        a@
    }

    open spec fn field_mul(&self, a: Seq<int>, b: Seq<int>) -> Seq<int> {
        fp6_mul(self.fp_chip.modulus(), self.xi_0 as int, a, b)
    }

    open spec fn field_has_inverse(&self, a: Seq<int>) -> bool {
        fp6_has_inverse(self.fp_chip.modulus(), self.xi_0 as int, a)
    }

    open spec fn field_inverse(&self, a: Seq<int>) -> Seq<int> {
        fp6_inverse(self.fp_chip.modulus(), self.xi_0 as int, a)
    }

    fn load_witness(&self, coeffs: &Vec<BigInt>) -> (r: Result<FieldVector, ChipError>) {
        let r = self.vector_chip().load_witness(coeffs);
        proof {
            if r is Ok {
                assert(r->Ok_0@.len() == 6);
            }
        }
        r
    }

    fn load_constant(&self, coeffs: &Vec<BigInt>) -> (r: FieldVector) {
        let r = self.vector_chip().load_constant(coeffs);
        assert(r@.len() == 6);
        r
    }

    fn duplicate(&self, a: &FieldVector) -> (r: FieldVector) {
        let r = a.duplicate(self.fp_chip);
        assert(r@.len() == 6);
        r
    }

    fn enforce_less_than(&self, a: &FieldVector) -> (r: Result<(), ChipError>) {
        proof {
            a.lemma_reduced(self.fp_chip);
        }
        self.vector_chip().enforce_less_than(a)
    }

    fn add(&self, a: &FieldVector, b: &FieldVector) -> (r: FieldVector) {
        let r = self.vector_chip().add(a, b);
        assert(r@.len() == 6);
        r
    }

    fn sub(&self, a: &FieldVector, b: &FieldVector) -> (r: FieldVector) {
        let r = self.vector_chip().sub(a, b);
        assert(r@.len() == 6);
        r
    }

    fn negate(&self, a: &FieldVector) -> (r: FieldVector) {
        let r = self.vector_chip().negate(a);
        assert(r@.len() == 6);
        r
    }

    fn scalar_mul(&self, a: &FieldVector, c: i64) -> (r: FieldVector) {
        let r = self.vector_chip().scalar_mul(a, c);
        assert(r@.len() == 6);
        r
    }

    fn mul(&self, a: &FieldVector, b: &FieldVector) -> (r: FieldVector) {
        Fp6Chip::mul(self, a, b)
    }

    fn divide(&self, a: &FieldVector, b: &FieldVector) -> (r: Result<FieldVector, ChipError>) {
        match self.inverse(b) {
            Ok(inv) => Ok(Fp6Chip::mul(self, a, &inv)),
            Err(e) => Err(e),
        }
    }

    fn is_equal(&self, a: &FieldVector, b: &FieldVector) -> (r: bool) {
        self.vector_chip().is_equal(a, b)
    }
}

} // verus!
