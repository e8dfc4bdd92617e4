//! The ways in which building a signature check can fail.

use vstd::prelude::*;

verus! {

/// The assertion that a witness failed. A failed assertion leaves the whole
/// check unsatisfiable.
#[derive(Clone, Copy, Debug, PartialEq, Eq, Structural)]
pub enum Violation {
    /// A witness is negative or does not fit the limbs of the field chip.
    FieldRange,
    /// A field element is not the reduced representative of its class.
    FieldReduced,
    /// A divisor has no inverse in its field.
    Divisor,
    /// A point does not satisfy the curve equation.
    OnCurve,
    /// Two points that are added share their x coordinate.
    DistinctX,
    /// A point of the twist lies outside the prime-order subgroup.
    Subgroup,
}

/// Why a chip could not be set up or a check could not be built.
#[derive(Clone, Copy, Debug, PartialEq, Eq, Structural)]
pub enum ChipError {
    /// The modulus is not 3 modulo 4 and 1 modulo 6, so the Frobenius
    /// shortcuts of the tower do not apply.
    UnsupportedModulus,
    /// The limb sizing leaves too little room for the unreduced sums that the
    /// tower arithmetic accumulates before it reduces.
    BoundExceeded,
    /// The lists of signatures and public keys are empty or differ in length.
    InputShape,
    /// A witness failed an assertion of the circuit.
    ConstraintViolation(Violation),
}

} // verus!
