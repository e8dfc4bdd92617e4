//! Witnesses of curve points as plain integers, before they are loaded
//! into a chip.

use crate::bignum::{big_clone, big_rem_euclid, big_sub, big_value, big_zero};
use crate::ecc::ec_negate;
use crate::fields::vector::{vec_neg, FieldVector};
use num_bigint::BigInt;
use vstd::prelude::*;

verus! {

/// An element `c0 + c1 u` of the quadratic extension, as two integers.
pub struct Fq2 {
    pub c0: BigInt,
    pub c1: BigInt,
}

impl View for Fq2 {
    type V = Seq<int>;

    open spec fn view(&self) -> Seq<int> {
        seq![big_value(self.c0), big_value(self.c1)]
    }
}

/// A point of the base curve in affine coordinates.
pub struct G1Affine {
    pub x: BigInt,
    pub y: BigInt,
}

impl View for G1Affine {
    type V = (int, int);

    open spec fn view(&self) -> (int, int) {
        (big_value(self.x), big_value(self.y))
    }
}

/// A point of the twist in affine coordinates.
pub struct G2Affine {
    pub x: Fq2,
    pub y: Fq2,
}

impl View for G2Affine {
    type V = (Seq<int>, Seq<int>);

    open spec fn view(&self) -> (Seq<int>, Seq<int>) {
        (self.x@, self.y@)
    }
}

/// The outcome of a verification: the value of the pairing product and
/// whether it is the one of the target group.
pub struct EqualityWitness {
    pub value: FieldVector,
    pub is_identity: bool,
}

/// A point of the base curve with its coordinates as vectors of one
/// coefficient.
pub open spec fn g1_lift(pt: (int, int)) -> (Seq<int>, Seq<int>) {
    (seq![pt.0], seq![pt.1])
}

/// The point of the base curve whose coordinates are the first coefficients
/// of `pt`.
pub open spec fn g1_lower(pt: (Seq<int>, Seq<int>)) -> (int, int) {
    (pt.0[0], pt.1[0])
}

impl G2Affine {
    /// The negative of this point for the field modulo `p`, with the
    /// y coordinate reduced.
    pub fn negated(&self, p: &BigInt) -> (r: G2Affine)
        requires
            big_value(*p) != 0,
        ensures
            r@ == ec_negate(big_value(*p), self@),
    {
        let zero = big_zero();
        let y0 = big_rem_euclid(&big_sub(&zero, &self.y.c0), p);
        let y1 = big_rem_euclid(&big_sub(&zero, &self.y.c1), p);
        let r = G2Affine {
            x: Fq2 { c0: big_clone(&self.x.c0), c1: big_clone(&self.x.c1) },
            y: Fq2 { c0: y0, c1: y1 },
        };
        assert(r.x@ =~= self.x@);
        assert(r.y@ =~= vec_neg(big_value(*p), self.y@));
        r
    }
}

} // verus!
