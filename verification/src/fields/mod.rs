//! Field chips: the prime field and the tower of its extensions, behind one
//! interface that the curve chip is written against.

use crate::bigint::big_values;
use crate::errors::{ChipError, Violation};
use crate::fields::fp::{magnitude, NO_CARRY_HEADROOM};
use crate::fields::vector::{
    vec_add, vec_congruent, vec_is_reduced, vec_neg, vec_reduce, vec_scale, vec_sub,
};
use crate::limbs::bit_length;
use num_bigint::BigInt;
use vstd::arithmetic::power::pow;
use vstd::prelude::*;

pub mod fp;
pub mod fp12;
pub mod fp2;
pub mod fp6;
pub mod vector;

verus! {

/// What a field chip offers to the chips above it. An element is described
/// by the vector of its coefficients over the prime field; sums, differences
/// and small multiples act on every coefficient, and each level says what
/// its product and its inverse are.
pub trait FieldChip {
    /// The elements of the field.
    type Point;

    /// The prime of the base field.
    spec fn modulus(&self) -> int;

    /// The base of the limbs of the base field.
    spec fn limb_base(&self) -> int;

    /// The number of limbs of the base field.
    spec fn limb_count(&self) -> nat;

    /// The degree of the field over the prime field.
    spec fn degree(&self) -> nat;

    /// The chip is set up.
    spec fn wf(&self) -> bool;

    /// The element is in carried form for this chip.
    spec fn point_wf(&self, a: &Self::Point) -> bool;

    /// The integers that represent the coefficients of the element.
    spec fn coeffs(&self, a: &Self::Point) -> Seq<int>;

    /// The product of two elements, on coefficients.
    spec fn field_mul(&self, a: Seq<int>, b: Seq<int>) -> Seq<int>;

    /// Whether an element has an inverse, on coefficients.
    spec fn field_has_inverse(&self, a: Seq<int>) -> bool;

    /// The inverse of an element that has one, on coefficients.
    spec fn field_inverse(&self, a: Seq<int>) -> Seq<int>;

    /// Loads the coefficients of a witness under the range check of the
    /// limbs.
    fn load_witness(&self, coeffs: &Vec<BigInt>) -> (r: Result<Self::Point, ChipError>)
        requires
            self.wf(),
            coeffs@.len() == self.degree(),
        ensures
            match r {
                Ok(x) => self.coeffs(&x) == big_values(coeffs@) && self.point_wf(&x),
                Err(e) => e == ChipError::ConstraintViolation(Violation::FieldRange),
            },
            r is Ok <==> forall|i: int|
                0 <= i < coeffs@.len() ==> 0 <= #[trigger] big_values(coeffs@)[i] < pow(
                    self.limb_base(),
                    self.limb_count(),
                ),
    ;

    /// Loads the coefficients of a constant, each reduced.
    fn load_constant(&self, coeffs: &Vec<BigInt>) -> (r: Self::Point)
        requires
            self.wf(),
            coeffs@.len() == self.degree(),
        ensures
            self.coeffs(&r) == vec_reduce(self.modulus(), big_values(coeffs@)),
            self.point_wf(&r),
            vec_is_reduced(self.modulus(), self.coeffs(&r)),
    ;

    /// A copy of an element.
    fn duplicate(&self, a: &Self::Point) -> (r: Self::Point)
        requires
            self.wf(),
            self.point_wf(a),
        ensures
            self.coeffs(&r) == self.coeffs(a),
            self.point_wf(&r),
            vec_is_reduced(self.modulus(), self.coeffs(a)) ==> vec_is_reduced(
                self.modulus(),
                self.coeffs(&r),
            ),
    ;

    /// Asserts that every coefficient is reduced.
    fn enforce_less_than(&self, a: &Self::Point) -> (r: Result<(), ChipError>)
        requires
            self.wf(),
            self.point_wf(a),
        ensures
            r is Ok <==> vec_is_reduced(self.modulus(), self.coeffs(a)),
            r matches Err(e) ==> e == ChipError::ConstraintViolation(Violation::FieldReduced),
    ;

    /// The sum of two elements.
    fn add(&self, a: &Self::Point, b: &Self::Point) -> (r: Self::Point)
        requires
            self.wf(),
            self.point_wf(a),
            self.point_wf(b),
        ensures
            self.coeffs(&r) == vec_add(self.modulus(), self.coeffs(a), self.coeffs(b)),
            self.point_wf(&r),
            vec_is_reduced(self.modulus(), self.coeffs(&r)),
    ;

    /// The difference of two elements.
    fn sub(&self, a: &Self::Point, b: &Self::Point) -> (r: Self::Point)
        requires
            self.wf(),
            self.point_wf(a),
            self.point_wf(b),
        ensures
            self.coeffs(&r) == vec_sub(self.modulus(), self.coeffs(a), self.coeffs(b)),
            self.point_wf(&r),
            vec_is_reduced(self.modulus(), self.coeffs(&r)),
    ;

    /// The negative of an element.
    fn negate(&self, a: &Self::Point) -> (r: Self::Point)
        requires
            self.wf(),
            self.point_wf(a),
        ensures
            self.coeffs(&r) == vec_neg(self.modulus(), self.coeffs(a)),
            self.point_wf(&r),
            vec_is_reduced(self.modulus(), self.coeffs(&r)),
    ;

    /// A small multiple of an element.
    fn scalar_mul(&self, a: &Self::Point, c: i64) -> (r: Self::Point)
        requires
            self.wf(),
            self.point_wf(a),
            bit_length(magnitude(c as int)) <= NO_CARRY_HEADROOM,
        ensures
            self.coeffs(&r) == vec_scale(self.modulus(), self.coeffs(a), c as int),
            self.point_wf(&r),
            vec_is_reduced(self.modulus(), self.coeffs(&r)),
    ;

    /// The product of two elements.
    fn mul(&self, a: &Self::Point, b: &Self::Point) -> (r: Self::Point)
        requires
            self.wf(),
            self.point_wf(a),
            self.point_wf(b),
        ensures
            self.coeffs(&r) == self.field_mul(self.coeffs(a), self.coeffs(b)),
            self.point_wf(&r),
            vec_is_reduced(self.modulus(), self.coeffs(&r)),
    ;

    /// The quotient of two elements, where the divisor has an inverse.
    fn divide(&self, a: &Self::Point, b: &Self::Point) -> (r: Result<Self::Point, ChipError>)
        requires
            self.wf(),
            self.point_wf(a),
            self.point_wf(b),
        ensures
            r is Ok <==> self.field_has_inverse(self.coeffs(b)),
            match r {
                Ok(x) => self.coeffs(&x) == self.field_mul(
                    self.coeffs(a),
                    self.field_inverse(self.coeffs(b)),
                ) && self.point_wf(&x) && vec_is_reduced(self.modulus(), self.coeffs(&x)),
                Err(e) => e == ChipError::ConstraintViolation(Violation::Divisor),
            },
    ;

    /// Whether two elements are the same element of the field.
    fn is_equal(&self, a: &Self::Point, b: &Self::Point) -> (r: bool)
        requires
            self.wf(),
            self.point_wf(a),
            self.point_wf(b),
        ensures
            r == vec_congruent(self.modulus(), self.coeffs(a), self.coeffs(b)),
    ;
}

} // verus!
