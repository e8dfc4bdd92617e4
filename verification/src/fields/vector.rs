//! Vectors of field elements: the coefficients of an extension-field
//! element, with the operations that act on every coefficient alike.

use crate::bigint::{big_values, ResidueInteger};
use crate::bignum::big_value;
use crate::errors::{ChipError, Violation};
use crate::fields::fp::{magnitude, FieldElement, FpChip, NO_CARRY_HEADROOM};
use crate::limbs::{bit_length, longer};
use num_bigint::BigInt;
use vstd::arithmetic::power::pow;
use vstd::prelude::*;

verus! {

/// An element of an extension field as the vector of its coefficients, each
/// a field element in carried form.
pub struct FieldVector(pub Vec<FieldElement>);

impl View for FieldVector {
    type V = Seq<int>;

    /// The integers that represent the coefficients.
    open spec fn view(&self) -> Seq<int> {
        Seq::new(self.0@.len(), |i: int| self.0@[i]@)
    }
}

impl FieldVector {
    /// Every coefficient is in carried form for `chip`.
    pub open spec fn wf(&self, chip: &FpChip) -> bool {
        forall|i: int| 0 <= i < self.0@.len() ==> (#[trigger] self.0@[i]).wf(chip)
    }

    /// Every coefficient is the reduced representative of its class.
    pub open spec fn reduced(&self, chip: &FpChip) -> bool {
        forall|i: int| 0 <= i < self.0@.len() ==> (#[trigger] self.0@[i]).reduced(chip)
    }

    /// Being reduced is a property of the coefficients alone.
    pub proof fn lemma_reduced(&self, chip: &FpChip)
        ensures
            self.reduced(chip) <==> vec_is_reduced(chip.modulus(), self@),
    {
        if self.reduced(chip) {
            assert forall|i: int| 0 <= i < self@.len() implies 0 <= #[trigger] self@[i]
                < chip.modulus() by {
                assert(self.0@[i].reduced(chip));
            }
        }
        if vec_is_reduced(chip.modulus(), self@) {
            assert forall|i: int| 0 <= i < self.0@.len() implies (#[trigger] self.0@[i]).reduced(
                chip,
            ) by {
                assert(0 <= self@[i] < chip.modulus());
            }
        }
    }

    /// A copy of this vector.
    pub fn duplicate(&self, chip: &FpChip) -> (r: FieldVector)
        requires
            self.wf(chip),
        ensures
            r@ == self@,
            r.wf(chip),
            self.reduced(chip) ==> r.reduced(chip),
    {
        let mut out: Vec<FieldElement> = Vec::new();
        let mut i: usize = 0;
        while i < self.0.len()
            invariant
                i <= self.0@.len(),
                out@.len() == i,
                self.wf(chip),
                forall|j: int|
                    0 <= j < i ==> (#[trigger] out@[j])@ == self.0@[j]@ && out@[j].wf(chip),
            decreases self.0@.len() - i,
        {
            let x = self.0[i].duplicate();
            assert(self.0@[i as int].wf(chip));
            out.push(x);
            i = i + 1;
        }
        let r = FieldVector(out);
        assert(r@ =~= self@);
        assert(self.reduced(chip) ==> r.reduced(chip)) by {
            if self.reduced(chip) {
                assert forall|j: int| 0 <= j < r.0@.len() implies (#[trigger] r.0@[j]).reduced(
                    chip,
                ) by {
                    assert(self.0@[j].reduced(chip));
                }
            }
        }
        r
    }
}

/// A vector of unreduced values: what the `no_carry` operations of an
/// extension field hand on.
pub struct UnreducedVector(pub Vec<ResidueInteger>);

impl View for UnreducedVector {
    type V = Seq<int>;

    /// The integers that the coefficients stand for.
    open spec fn view(&self) -> Seq<int> {
        Seq::new(self.0@.len(), |i: int| self.0@[i]@)
    }
}

impl UnreducedVector {
    /// Every coefficient is consistent for `chip` and fits the native field.
    pub open spec fn wf(&self, chip: &FpChip) -> bool {
        forall|i: int| 0 <= i < self.0@.len() ==> (#[trigger] self.0@[i]).wf(chip)
    }

    /// No coefficient has limbs of more than `bits` bits.
    pub open spec fn within(&self, bits: nat) -> bool {
        forall|i: int| 0 <= i < self.0@.len() ==> (#[trigger] self.0@[i]).max_limb_bits <= bits
    }
}

/// The coefficient-wise sum of two vectors modulo `p`.
pub open spec fn vec_add(p: int, a: Seq<int>, b: Seq<int>) -> Seq<int> {
    Seq::new(a.len(), |i: int| (a[i] + b[i]) % p)
}

/// The coefficient-wise difference of two vectors modulo `p`.
pub open spec fn vec_sub(p: int, a: Seq<int>, b: Seq<int>) -> Seq<int> {
    Seq::new(a.len(), |i: int| (a[i] - b[i]) % p)
}

/// The coefficient-wise negation of a vector modulo `p`.
pub open spec fn vec_neg(p: int, a: Seq<int>) -> Seq<int> {
    Seq::new(a.len(), |i: int| (-a[i]) % p)
}

/// Every coefficient of a vector times `c`, modulo `p`.
pub open spec fn vec_scale(p: int, a: Seq<int>, c: int) -> Seq<int> {
    Seq::new(a.len(), |i: int| (c * a[i]) % p)
}

/// Every coefficient of a vector times the integer `c` of the prime field,
/// modulo `p`.
pub open spec fn vec_fp_mul(p: int, a: Seq<int>, c: int) -> Seq<int> {
    Seq::new(a.len(), |i: int| (a[i] * c) % p)
}

/// Every coefficient of a vector reduced modulo `p`.
pub open spec fn vec_reduce(p: int, a: Seq<int>) -> Seq<int> {
    Seq::new(a.len(), |i: int| a[i] % p)
}

/// Whether every coefficient of a vector is the reduced representative of
/// its class modulo `p`.
pub open spec fn vec_is_reduced(p: int, a: Seq<int>) -> bool {
    forall|i: int| 0 <= i < a.len() ==> 0 <= #[trigger] a[i] < p
}

/// Whether two vectors of one length agree coefficient by coefficient
/// modulo `p`.
pub open spec fn vec_congruent(p: int, a: Seq<int>, b: Seq<int>) -> bool {
    vec_reduce(p, a) == vec_reduce(p, b)
}

/// The operations on coefficient vectors that every level of the tower
/// shares.
pub struct FieldVectorChip<'a> {
    pub fp_chip: &'a FpChip,
}

impl<'a> FieldVectorChip<'a> {
    /// The chip that acts on vectors over the field of `fp_chip`.
    pub fn new(fp_chip: &'a FpChip) -> (r: Self)
        ensures
            r.fp_chip == fp_chip,
    {
        FieldVectorChip { fp_chip }
    }

    /// The prime of the base field.
    pub open spec fn modulus(&self) -> int {
        self.fp_chip.modulus()
    }

    /// Loads the coefficients of a witness, each under the range check of
    /// the field chip.
    pub fn load_witness(&self, coeffs: &Vec<BigInt>) -> (r: Result<FieldVector, ChipError>)
        requires
            self.fp_chip.wf(),
        ensures
            match r {
                Ok(x) => x@ == big_values(coeffs@) && x.wf(self.fp_chip),
                Err(e) => e == ChipError::ConstraintViolation(Violation::FieldRange),
            },
            r is Ok <==> forall|i: int|
                0 <= i < coeffs@.len() ==> 0 <= #[trigger] big_values(coeffs@)[i]
                    < pow(
                    self.fp_chip.base(),
                    self.fp_chip.num_limbs as nat,
                ),
    {
        let ghost vals = big_values(coeffs@);
        let ghost span = pow(
            self.fp_chip.base(),
            self.fp_chip.num_limbs as nat,
        );
        let mut out: Vec<FieldElement> = Vec::new();
        let mut i: usize = 0;
        while i < coeffs.len()
            invariant
                i <= coeffs@.len(),
                out@.len() == i,
                self.fp_chip.wf(),
                vals == big_values(coeffs@),
                span == pow(
                    self.fp_chip.base(),
                    self.fp_chip.num_limbs as nat,
                ),
                forall|j: int| 0 <= j < i ==> 0 <= #[trigger] vals[j] < span,
                forall|j: int|
                    0 <= j < i ==> (#[trigger] out@[j])@ == vals[j] && out@[j].wf(self.fp_chip),
            decreases coeffs@.len() - i,
        {
            match self.fp_chip.load_witness(&coeffs[i]) {
                Ok(x) => {
                    assert(vals[i as int] == big_value(coeffs@[i as int]));
                    out.push(x);
                },
                Err(e) => {
                    assert(vals[i as int] == big_value(coeffs@[i as int]));
                    assert(!(0 <= vals[i as int] < span));
                    return Err(e);
                },
            }
            i = i + 1;
        }
        let r = FieldVector(out);
        assert(r@ =~= vals);
        Ok(r)
    }

    /// Loads the coefficients of a constant, each reduced.
    pub fn load_constant(&self, coeffs: &Vec<BigInt>) -> (r: FieldVector)
        requires
            self.fp_chip.wf(),
        ensures
            r@ == vec_reduce(self.modulus(), big_values(coeffs@)),
            r.wf(self.fp_chip),
            r.reduced(self.fp_chip),
    {
        let ghost vals = big_values(coeffs@);
        let mut out: Vec<FieldElement> = Vec::new();
        let mut i: usize = 0;
        while i < coeffs.len()
            invariant
                i <= coeffs@.len(),
                out@.len() == i,
                self.fp_chip.wf(),
                vals == big_values(coeffs@),
                forall|j: int|
                    0 <= j < i ==> (#[trigger] out@[j])@ == vals[j] % self.modulus() && out@[j].wf(
                        self.fp_chip,
                    ) && out@[j].reduced(self.fp_chip),
            decreases coeffs@.len() - i,
        {
            let x = self.fp_chip.load_constant(&coeffs[i]);
            assert(vals[i as int] == big_value(coeffs@[i as int]));
            out.push(x);
            i = i + 1;
        }
        let r = FieldVector(out);
        assert(r@ =~= vec_reduce(self.modulus(), vals));
        r
    }

    /// Asserts that every coefficient is the reduced representative of its
    /// class.
    pub fn enforce_less_than(&self, a: &FieldVector) -> (r: Result<(), ChipError>)
        requires
            self.fp_chip.wf(),
            a.wf(self.fp_chip),
        ensures
            r is Ok <==> a.reduced(self.fp_chip),
            r matches Err(e) ==> e == ChipError::ConstraintViolation(Violation::FieldReduced),
    {
        let mut i: usize = 0;
        while i < a.0.len()
            invariant
                i <= a.0@.len(),
                self.fp_chip.wf(),
                a.wf(self.fp_chip),
                forall|j: int| 0 <= j < i ==> (#[trigger] a.0@[j]).reduced(self.fp_chip),
            decreases a.0@.len() - i,
        {
            assert(a.0@[i as int].wf(self.fp_chip));
            match self.fp_chip.enforce_less_than(&a.0[i]) {
                Ok(()) => {},
                Err(e) => {
                    assert(!a.0@[i as int].reduced(self.fp_chip));
                    return Err(e);
                },
            }
            i = i + 1;
        }
        Ok(())
    }

    /// The coefficient-wise sum, without reduction.
    pub fn add_no_carry(&self, a: &UnreducedVector, b: &UnreducedVector) -> (r: UnreducedVector)
        requires
            self.fp_chip.wf(),
            a.wf(self.fp_chip),
            b.wf(self.fp_chip),
            a.0@.len() == b.0@.len(),
            forall|i: int|
                0 <= i < a.0@.len() ==> longer(
                    (#[trigger] a.0@[i]).max_limb_bits as nat,
                    b.0@[i].max_limb_bits as nat,
                ) + 1 <= self.fp_chip.limb_cap(),
        ensures
            r.0@.len() == a.0@.len(),
            r.wf(self.fp_chip),
            forall|i: int|
                0 <= i < a.0@.len() ==> (#[trigger] r.0@[i])@ == a.0@[i]@ + b.0@[i]@
                    && r.0@[i].max_limb_bits == longer(
                    a.0@[i].max_limb_bits as nat,
                    b.0@[i].max_limb_bits as nat,
                ) + 1,
    {
        let mut out: Vec<ResidueInteger> = Vec::new();
        let mut i: usize = 0;
        while i < a.0.len()
            invariant
                i <= a.0@.len(),
                out@.len() == i,
                self.fp_chip.wf(),
                a.wf(self.fp_chip),
                b.wf(self.fp_chip),
                a.0@.len() == b.0@.len(),
                forall|i: int|
                    0 <= i < a.0@.len() ==> longer(
                        (#[trigger] a.0@[i]).max_limb_bits as nat,
                        b.0@[i].max_limb_bits as nat,
                    ) + 1 <= self.fp_chip.limb_cap(),
                forall|j: int|
                    0 <= j < i ==> (#[trigger] out@[j])@ == a.0@[j]@ + b.0@[j]@ && out@[j].wf(
                        self.fp_chip,
                    ) && out@[j].max_limb_bits == longer(
                        a.0@[j].max_limb_bits as nat,
                        b.0@[j].max_limb_bits as nat,
                    ) + 1,
            decreases a.0@.len() - i,
        {
            assert(a.0@[i as int].wf(self.fp_chip));
            assert(b.0@[i as int].wf(self.fp_chip));
            let x = self.fp_chip.add_no_carry(&a.0[i], &b.0[i]);
            out.push(x);
            i = i + 1;
        }
        UnreducedVector(out)
    }

    /// The coefficient-wise difference, without reduction.
    pub fn sub_no_carry(&self, a: &UnreducedVector, b: &UnreducedVector) -> (r: UnreducedVector)
        requires
            self.fp_chip.wf(),
            a.wf(self.fp_chip),
            b.wf(self.fp_chip),
            a.0@.len() == b.0@.len(),
            forall|i: int|
                0 <= i < a.0@.len() ==> longer(
                    (#[trigger] a.0@[i]).max_limb_bits as nat,
                    b.0@[i].max_limb_bits as nat,
                ) + 1 <= self.fp_chip.limb_cap(),
        ensures
            r.0@.len() == a.0@.len(),
            r.wf(self.fp_chip),
            forall|i: int|
                0 <= i < a.0@.len() ==> (#[trigger] r.0@[i])@ == a.0@[i]@ - b.0@[i]@
                    && r.0@[i].max_limb_bits == longer(
                    a.0@[i].max_limb_bits as nat,
                    b.0@[i].max_limb_bits as nat,
                ) + 1,
    {
        let mut out: Vec<ResidueInteger> = Vec::new();
        let mut i: usize = 0;
        while i < a.0.len()
            invariant
                i <= a.0@.len(),
                out@.len() == i,
                self.fp_chip.wf(),
                a.wf(self.fp_chip),
                b.wf(self.fp_chip),
                a.0@.len() == b.0@.len(),
                forall|i: int|
                    0 <= i < a.0@.len() ==> longer(
                        (#[trigger] a.0@[i]).max_limb_bits as nat,
                        b.0@[i].max_limb_bits as nat,
                    ) + 1 <= self.fp_chip.limb_cap(),
                forall|j: int|
                    0 <= j < i ==> (#[trigger] out@[j])@ == a.0@[j]@ - b.0@[j]@ && out@[j].wf(
                        self.fp_chip,
                    ) && out@[j].max_limb_bits == longer(
                        a.0@[j].max_limb_bits as nat,
                        b.0@[j].max_limb_bits as nat,
                    ) + 1,
            decreases a.0@.len() - i,
        {
            assert(a.0@[i as int].wf(self.fp_chip));
            assert(b.0@[i as int].wf(self.fp_chip));
            let x = self.fp_chip.sub_no_carry(&a.0[i], &b.0[i]);
            out.push(x);
            i = i + 1;
        }
        UnreducedVector(out)
    }

    /// Every coefficient times a small integer, without reduction.
    pub fn scalar_mul_no_carry(&self, a: &UnreducedVector, c: i64) -> (r: UnreducedVector)
        requires
            self.fp_chip.wf(),
            a.wf(self.fp_chip),
            forall|i: int|
                0 <= i < a.0@.len() ==> (#[trigger] a.0@[i]).max_limb_bits + bit_length(
                    magnitude(c as int),
                ) <= self.fp_chip.limb_cap(),
        ensures
            r.0@.len() == a.0@.len(),
            r.wf(self.fp_chip),
            forall|i: int|
                0 <= i < a.0@.len() ==> (#[trigger] r.0@[i])@ == c * a.0@[i]@
                    && r.0@[i].max_limb_bits == a.0@[i].max_limb_bits + bit_length(
                    magnitude(c as int),
                ),
    {
        let mut out: Vec<ResidueInteger> = Vec::new();
        let mut i: usize = 0;
        while i < a.0.len()
            invariant
                i <= a.0@.len(),
                out@.len() == i,
                self.fp_chip.wf(),
                a.wf(self.fp_chip),
                forall|i: int|
                    0 <= i < a.0@.len() ==> (#[trigger] a.0@[i]).max_limb_bits + bit_length(
                        magnitude(c as int),
                    ) <= self.fp_chip.limb_cap(),
                forall|j: int|
                    0 <= j < i ==> (#[trigger] out@[j])@ == c * a.0@[j]@ && out@[j].wf(
                        self.fp_chip,
                    ) && out@[j].max_limb_bits == a.0@[j].max_limb_bits + bit_length(
                        magnitude(c as int),
                    ),
            decreases a.0@.len() - i,
        {
            assert(a.0@[i as int].wf(self.fp_chip));
            let x = self.fp_chip.scalar_mul_no_carry(&a.0[i], c);
            out.push(x);
            i = i + 1;
        }
        UnreducedVector(out)
    }

    /// Reduces every coefficient and puts it back into carried form.
    pub fn carry_mod(&self, a: &UnreducedVector) -> (r: FieldVector)
        requires
            self.fp_chip.wf(),
            a.wf(self.fp_chip),
        ensures
            r@ == vec_reduce(self.modulus(), a@),
            r.wf(self.fp_chip),
            r.reduced(self.fp_chip),
    {
        let mut out: Vec<FieldElement> = Vec::new();
        let mut i: usize = 0;
        while i < a.0.len()
            invariant
                i <= a.0@.len(),
                out@.len() == i,
                self.fp_chip.wf(),
                a.wf(self.fp_chip),
                forall|j: int|
                    0 <= j < i ==> (#[trigger] out@[j])@ == a.0@[j]@ % self.modulus()
                        && out@[j].wf(self.fp_chip) && out@[j].reduced(self.fp_chip),
            decreases a.0@.len() - i,
        {
            assert(a.0@[i as int].wf(self.fp_chip));
            let x = self.fp_chip.carry_mod(&a.0[i]);
            out.push(x);
            i = i + 1;
        }
        let r = FieldVector(out);
        assert(r@ =~= vec_reduce(self.modulus(), a@));
        r
    }

    /// Whether two vectors of one length agree coefficient by coefficient
    /// modulo the prime.
    pub fn is_equal(&self, a: &FieldVector, b: &FieldVector) -> (r: bool)
        requires
            self.fp_chip.wf(),
            a.wf(self.fp_chip),
            b.wf(self.fp_chip),
            a.0@.len() == b.0@.len(),
        ensures
            r == vec_congruent(self.modulus(), a@, b@),
    {
        let ghost p = self.modulus();
        let mut i: usize = 0;
        while i < a.0.len()
            invariant
                i <= a.0@.len(),
                p == self.modulus(),
                self.fp_chip.wf(),
                a.wf(self.fp_chip),
                b.wf(self.fp_chip),
                a.0@.len() == b.0@.len(),
                forall|j: int| 0 <= j < i ==> (#[trigger] a@[j]) % p == b@[j] % p,
            decreases a.0@.len() - i,
        {
            assert(a.0@[i as int].wf(self.fp_chip));
            assert(b.0@[i as int].wf(self.fp_chip));
            if !self.fp_chip.is_equal(&a.0[i], &b.0[i]) {
                assert(vec_reduce(p, a@)[i as int] != vec_reduce(p, b@)[i as int]);
                return false;
            }
            i = i + 1;
        }
        assert(vec_reduce(p, a@) =~= vec_reduce(p, b@));
        true
    }

    /// The coefficient-wise sum, reduced.
    pub fn add(&self, a: &FieldVector, b: &FieldVector) -> (r: FieldVector)
        requires
            self.fp_chip.wf(),
            a.wf(self.fp_chip),
            b.wf(self.fp_chip),
            a.0@.len() == b.0@.len(),
        ensures
            r@ == vec_add(self.modulus(), a@, b@),
            r.wf(self.fp_chip),
            r.reduced(self.fp_chip),
    {
        let mut out: Vec<FieldElement> = Vec::new();
        let mut i: usize = 0;
        while i < a.0.len()
            invariant
                i <= a.0@.len(),
                out@.len() == i,
                self.fp_chip.wf(),
                a.wf(self.fp_chip),
                b.wf(self.fp_chip),
                a.0@.len() == b.0@.len(),
                forall|j: int|
                    0 <= j < i ==> (#[trigger] out@[j])@ == (a.0@[j]@ + b.0@[j]@) % self.modulus()
                        && out@[j].wf(self.fp_chip) && out@[j].reduced(self.fp_chip),
            decreases a.0@.len() - i,
        {
            assert(a.0@[i as int].wf(self.fp_chip));
            assert(b.0@[i as int].wf(self.fp_chip));
            let x = self.fp_chip.add(&a.0[i], &b.0[i]);
            out.push(x);
            i = i + 1;
        }
        let r = FieldVector(out);
        assert(r@ =~= vec_add(self.modulus(), a@, b@));
        r
    }

    /// The coefficient-wise difference, reduced.
    pub fn sub(&self, a: &FieldVector, b: &FieldVector) -> (r: FieldVector)
        requires
            self.fp_chip.wf(),
            a.wf(self.fp_chip),
            b.wf(self.fp_chip),
            a.0@.len() == b.0@.len(),
        ensures
            r@ == vec_sub(self.modulus(), a@, b@),
            r.wf(self.fp_chip),
            r.reduced(self.fp_chip),
    {
        let mut out: Vec<FieldElement> = Vec::new();
        let mut i: usize = 0;
        while i < a.0.len()
            invariant
                i <= a.0@.len(),
                out@.len() == i,
                self.fp_chip.wf(),
                a.wf(self.fp_chip),
                b.wf(self.fp_chip),
                a.0@.len() == b.0@.len(),
                forall|j: int|
                    0 <= j < i ==> (#[trigger] out@[j])@ == (a.0@[j]@ - b.0@[j]@) % self.modulus()
                        && out@[j].wf(self.fp_chip) && out@[j].reduced(self.fp_chip),
            decreases a.0@.len() - i,
        {
            assert(a.0@[i as int].wf(self.fp_chip));
            assert(b.0@[i as int].wf(self.fp_chip));
            let x = self.fp_chip.sub(&a.0[i], &b.0[i]);
            out.push(x);
            i = i + 1;
        }
        let r = FieldVector(out);
        assert(r@ =~= vec_sub(self.modulus(), a@, b@));
        r
    }

    /// The coefficient-wise negative, reduced.
    pub fn negate(&self, a: &FieldVector) -> (r: FieldVector)
        requires
            self.fp_chip.wf(),
            a.wf(self.fp_chip),
        ensures
            r@ == vec_neg(self.modulus(), a@),
            r.wf(self.fp_chip),
            r.reduced(self.fp_chip),
    {
        let mut out: Vec<FieldElement> = Vec::new();
        let mut i: usize = 0;
        while i < a.0.len()
            invariant
                i <= a.0@.len(),
                out@.len() == i,
                self.fp_chip.wf(),
                a.wf(self.fp_chip),
                forall|j: int|
                    0 <= j < i ==> (#[trigger] out@[j])@ == (-a.0@[j]@) % self.modulus()
                        && out@[j].wf(self.fp_chip) && out@[j].reduced(self.fp_chip),
            decreases a.0@.len() - i,
        {
            assert(a.0@[i as int].wf(self.fp_chip));
            let x = self.fp_chip.negate(&a.0[i]);
            out.push(x);
            i = i + 1;
        }
        let r = FieldVector(out);
        assert(r@ =~= vec_neg(self.modulus(), a@));
        r
    }

    /// Every coefficient times a small integer, reduced.
    pub fn scalar_mul(&self, a: &FieldVector, c: i64) -> (r: FieldVector)
        requires
            self.fp_chip.wf(),
            a.wf(self.fp_chip),
            bit_length(magnitude(c as int)) <= NO_CARRY_HEADROOM,
        ensures
            r@ == vec_scale(self.modulus(), a@, c as int),
            r.wf(self.fp_chip),
            r.reduced(self.fp_chip),
    {
        let mut out: Vec<FieldElement> = Vec::new();
        let mut i: usize = 0;
        while i < a.0.len()
            invariant
                i <= a.0@.len(),
                out@.len() == i,
                self.fp_chip.wf(),
                a.wf(self.fp_chip),
                bit_length(magnitude(c as int)) <= NO_CARRY_HEADROOM,
                forall|j: int|
                    0 <= j < i ==> (#[trigger] out@[j])@ == (c * a.0@[j]@) % self.modulus()
                        && out@[j].wf(self.fp_chip) && out@[j].reduced(self.fp_chip),
            decreases a.0@.len() - i,
        {
            assert(a.0@[i as int].wf(self.fp_chip));
            let x = self.fp_chip.scalar_mul(&a.0[i], c);
            out.push(x);
            i = i + 1;
        }
        let r = FieldVector(out);
        assert(r@ =~= vec_scale(self.modulus(), a@, c as int));
        r
    }

    /// Every coefficient times one element of the prime field, reduced.
    pub fn fp_mul(&self, a: &FieldVector, c: &FieldElement) -> (r: FieldVector)
        requires
            self.fp_chip.wf(),
            a.wf(self.fp_chip),
            c.wf(self.fp_chip),
        ensures
            r@ == vec_fp_mul(self.modulus(), a@, c@),
            r.wf(self.fp_chip),
            r.reduced(self.fp_chip),
    {
        let mut out: Vec<FieldElement> = Vec::new();
        let mut i: usize = 0;
        while i < a.0.len()
            invariant
                i <= a.0@.len(),
                out@.len() == i,
                self.fp_chip.wf(),
                a.wf(self.fp_chip),
                c.wf(self.fp_chip),
                forall|j: int|
                    0 <= j < i ==> (#[trigger] out@[j])@ == (a.0@[j]@ * c@) % self.modulus()
                        && out@[j].wf(self.fp_chip) && out@[j].reduced(self.fp_chip),
            decreases a.0@.len() - i,
        {
            assert(a.0@[i as int].wf(self.fp_chip));
            let x = self.fp_chip.mul(&a.0[i], c);
            out.push(x);
            i = i + 1;
        }
        let r = FieldVector(out);
        assert(r@ =~= vec_fp_mul(self.modulus(), a@, c@));
        r
    }
}

} // verus!
