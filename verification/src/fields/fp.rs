//! The prime-field chip: elements are residue integers, and reduction is
//! deferred across the operations that are marked `no_carry`.

use crate::bigint::{
    add_limbs, big_pow2, big_values, mul_limbs, scale_limbs, split_digits, sub_limbs,
    ResidueInteger,
};
use crate::bignum::{
    big_add, big_clone, big_div_euclid, big_eq, big_from_i64, big_from_u64, big_lt, big_modinv,
    big_mul, big_rem_euclid, big_sub, big_value, big_zero,
};
use crate::errors::{ChipError, Violation};
use crate::fields::FieldChip;
use crate::fields::vector::{vec_add, vec_neg, vec_reduce, vec_scale, vec_sub};
use crate::limbs::{
    bit_length, lemma_add_bounded, lemma_bit_length_bound, lemma_bit_length_lower, lemma_mul_bounded, lemma_scale_bounded,
    lemma_sum_add, lemma_sum_mul, lemma_sum_scale, lemma_sum_sub, limbs_add, limbs_are_digits,
    limbs_bounded, limbs_mul, limbs_scale, limbs_sub, limbs_sum, longer,
};
use crate::modular::{
    has_inverse, lemma_crt_unique, lemma_mod_inverse_is, mod_div, mod_inverse,
};
use num_bigint::BigInt;
use vstd::arithmetic::div_mod::*;
use vstd::arithmetic::power2::*;
use vstd::arithmetic::power::*;
use vstd::prelude::*;

verus! {

/// The bits by which unreduced limbs may grow beyond those of one product
/// before a reduction is due.
pub const NO_CARRY_HEADROOM: usize = 24;

/// The largest native field, in bits, and the largest number of limbs that a
/// chip can be sized for.
pub const MAX_NATIVE_BITS: usize = 4096;

/// An element of the prime field: a residue integer whose limbs are digits.
pub struct FieldElement(pub ResidueInteger);

impl View for FieldElement {
    type V = int;

    /// The integer that represents the element.
    open spec fn view(&self) -> int {
        self.0@
    }
}

/// The configuration of the prime field: its modulus, the modulus of the
/// native field that holds the limbs, and the sizing of the limbs.
pub struct FpChip {
    pub p: BigInt,
    pub limb_bits: usize,
    pub num_limbs: usize,
    pub native_modulus: BigInt,
    pub native_bits: usize,
    pub limb_base: BigInt,
    pub product_bits: usize,
}

/// Whether limbs of this sizing leave the headroom that unreduced sums need
/// inside a native field of `native_bits` bits.
pub open spec fn sizing_fits(limb_bits: usize, num_limbs: usize, native_bits: usize) -> bool {
    &&& 1 <= limb_bits
    &&& 1 <= num_limbs <= MAX_NATIVE_BITS
    &&& native_bits <= MAX_NATIVE_BITS
    &&& 2 * limb_bits + bit_length(num_limbs as nat) + NO_CARRY_HEADROOM + 1 <= native_bits
}

/// Whether limbs of this sizing leave the headroom that unreduced sums need
/// inside the native field of the given modulus.
pub open spec fn sizing_fits_native(limb_bits: usize, num_limbs: usize, native: int) -> bool {
    &&& native >= 1
    &&& bit_length(native as nat) <= MAX_NATIVE_BITS
    &&& 1 <= limb_bits
    &&& 1 <= num_limbs <= MAX_NATIVE_BITS
    &&& 2 * limb_bits + bit_length(num_limbs as nat) + NO_CARRY_HEADROOM + 1 <= bit_length(
        native as nat,
    )
}

/// The absolute value of `c`.
pub open spec fn magnitude(c: int) -> nat {
    if c >= 0 {
        c as nat
    } else {
        (-c) as nat
    }
}

/// A number below `2^k` has at most `k` binary digits.
proof fn lemma_bit_length_le(n: nat, k: nat)
    requires
        n < pow2(k),
    ensures
        bit_length(n) <= k,
    decreases n,
{
    if n > 0 {
        if k == 0 {
            lemma2_to64();
        } else {
            lemma_pow2_unfold(k);
            lemma_bit_length_le(n / 2, (k - 1) as nat);
        }
    }
}

/// The number of binary digits of `x`.
pub fn bit_length_of(x: u64) -> (r: usize)
    ensures
        r == bit_length(x as nat),
        r <= 64,
{
    let mut n = x;
    let mut r: usize = 0;
    proof {
        lemma2_to64();
        lemma2_to64_rest();
        lemma_bit_length_le(x as nat, 64);
    }
    while n > 0
        invariant
            bit_length(x as nat) == r + bit_length(n as nat),
            bit_length(x as nat) <= 64,
        decreases n,
    {
        n = n / 2;
        r = r + 1;
    }
    r
}

/// The number of binary digits of a big integer, where it is not negative
/// and has no more digits than the largest native field.
pub fn big_bit_length(n: &BigInt) -> (r: Option<usize>)
    ensures
        match r {
            Some(bits) => big_value(*n) >= 0 && bits == bit_length(big_value(*n) as nat) && bits
                <= MAX_NATIVE_BITS,
            None => big_value(*n) < 0 || bit_length(big_value(*n) as nat) > MAX_NATIVE_BITS,
        },
{
    let zero = big_zero();
    let two = big_from_u64(2);
    if big_lt(n, &zero) {
        return None;
    }
    let mut rest = big_clone(n);
    let mut bits: usize = 0;
    while !big_eq(&rest, &zero)
        invariant
            big_value(zero) == 0,
            big_value(two) == 2,
            big_value(*n) >= 0,
            big_value(rest) >= 0,
            bits <= MAX_NATIVE_BITS,
            bit_length(big_value(*n) as nat) == bits + bit_length(big_value(rest) as nat),
        decreases big_value(rest),
    {
        if bits == MAX_NATIVE_BITS {
            return None;
        }
        rest = big_div_euclid(&rest, &two);
        bits = bits + 1;
    }
    Some(bits)
}

/// Digits of the base `2^bits` spell a number from zero up to, and
/// without, the base to their count.
proof fn lemma_digits_sum_bound(s: Seq<int>, bits: nat)
    requires
        limbs_are_digits(s, bits),
    ensures
        0 <= limbs_sum(s, pow2(bits) as int) < pow(pow2(bits) as int, s.len()),
    decreases s.len(),
{
    let b = pow2(bits) as int;
    lemma_pow2_pos(bits);
    if s.len() == 0 {
        lemma_pow0(b);
    } else {
        let t = s.drop_last();
        lemma_digits_sum_bound(t, bits);
        let w = pow(b, t.len());
        lemma_pow_adds(b, t.len(), 1);
        lemma_pow1(b);
        lemma_pow_positive(b, t.len());
        assert(0 <= s.last() < b);
        assert(0 <= s.last() * w <= (b - 1) * w) by (nonlinear_arith)
            requires
                0 <= s.last() < b,
                w > 0,
        ;
        assert((b - 1) * w + w == w * b) by (nonlinear_arith);
    }
}

/// Digits are limbs within the bound of their width.
proof fn lemma_digits_bounded(s: Seq<int>, bits: nat)
    requires
        limbs_are_digits(s, bits),
    ensures
        limbs_bounded(s, bits),
{
    lemma_pow2_pos(bits);
}

impl FieldElement {
    /// The element is in carried form for `chip`: as many limbs as the chip
    /// has, each a digit, spelling the value.
    pub open spec fn wf(&self, chip: &FpChip) -> bool {
        &&& self.0.carried(chip.limb_bits as nat)
        &&& self.0.limbs@.len() == chip.num_limbs
    }

    /// The element is the reduced representative of its class.
    pub open spec fn reduced(&self, chip: &FpChip) -> bool {
        0 <= self@ < chip.modulus()
    }

    /// A copy of this element.
    pub fn duplicate(&self) -> (r: FieldElement)
        ensures
            r@ == self@,
            r.0.limb_values() == self.0.limb_values(),
            r.0.max_limb_bits == self.0.max_limb_bits,
            r.0.limbs@.len() == self.0.limbs@.len(),
    {
        let inner = self.0.duplicate();
        assert(inner.limb_values().len() == inner.limbs@.len());
        assert(self.0.limb_values().len() == self.0.limbs@.len());
        FieldElement(inner)
    }
}

impl ResidueInteger {
    /// The value is consistent for `chip` and its limbs fit the native field.
    pub open spec fn wf(&self, chip: &FpChip) -> bool {
        &&& self.consistent(chip.limb_bits as nat)
        &&& self.max_limb_bits <= chip.limb_cap()
    }
}

impl FpChip {
    /// The prime of the field.
    pub open spec fn modulus(&self) -> int {
        big_value(self.p)
    }

    /// The modulus of the native field.
    pub open spec fn native(&self) -> int {
        big_value(self.native_modulus)
    }

    /// The base of the limbs, `2^limb_bits`.
    pub open spec fn base(&self) -> int {
        pow2(self.limb_bits as nat) as int
    }

    /// The most bits that a limb may take before it would wrap in the native
    /// field.
    pub open spec fn limb_cap(&self) -> nat {
        (self.native_bits - 1) as nat
    }

    /// The chip is set up: the limbs hold every reduced element, and the
    /// sizing leaves the headroom for unreduced sums inside the native
    /// field.
    pub open spec fn wf(&self) -> bool {
        &&& sizing_fits(self.limb_bits, self.num_limbs, self.native_bits)
        &&& self.native() >= 1
        &&& self.native_bits == bit_length(self.native() as nat)
        &&& big_value(self.limb_base) == self.base()
        &&& 2 <= self.modulus() < pow(self.base(), self.num_limbs as nat)
        &&& self.product_bits == 2 * self.limb_bits + bit_length(self.num_limbs as nat)
    }

    /// Sets up the field modulo `p` on `num_limbs` limbs of `limb_bits` bits
    /// inside the native field of the given modulus.
    pub fn new(p: BigInt, limb_bits: usize, num_limbs: usize, native_modulus: BigInt) -> (r:
        Result<FpChip, ChipError>)
        ensures
            match r {
                Ok(chip) => {
                    &&& chip.wf()
                    &&& chip.modulus() == big_value(p)
                    &&& chip.native() == big_value(native_modulus)
                    &&& chip.limb_bits == limb_bits
                    &&& chip.num_limbs == num_limbs
                },
                Err(e) => if big_value(p) < 2 {
                    e == ChipError::UnsupportedModulus
                } else {
                    e == ChipError::BoundExceeded && !(sizing_fits_native(
                        limb_bits,
                        num_limbs,
                        big_value(native_modulus),
                    ) && big_value(p) < pow(pow2(limb_bits as nat) as int, num_limbs as nat))
                },
            },
    {
        let two = big_from_u64(2);
        if big_lt(&p, &two) {
            return Err(ChipError::UnsupportedModulus);
        }
        let native_bits = match big_bit_length(&native_modulus) {
            Some(bits) => bits,
            None => {
                return Err(ChipError::BoundExceeded);
            },
        };
        if native_bits < 1 {
            return Err(ChipError::BoundExceeded);
        }
        if limb_bits < 1 || num_limbs < 1 || num_limbs > MAX_NATIVE_BITS || limb_bits
            > MAX_NATIVE_BITS {
            return Err(ChipError::BoundExceeded);
        }
        let count_bits = bit_length_of(num_limbs as u64);
        let product_bits = 2 * limb_bits + count_bits;
        if product_bits + NO_CARRY_HEADROOM + 1 > native_bits {
            return Err(ChipError::BoundExceeded);
        }
        let limb_base = big_pow2(limb_bits);
        assert(limb_bits * num_limbs <= 4096 * 4096) by (nonlinear_arith)
            requires
                limb_bits <= 4096,
                num_limbs <= 4096,
        ;
        let span = big_pow2(limb_bits * num_limbs);
        proof {
            lemma_pow2(limb_bits as nat);
            lemma_pow2((limb_bits * num_limbs) as nat);
            lemma_pow_multiplies(2, limb_bits as nat, num_limbs as nat);
        }
        if !big_lt(&p, &span) {
            return Err(ChipError::BoundExceeded);
        }
        Ok(
            FpChip {
                p,
                limb_bits,
                num_limbs,
                native_modulus,
                native_bits,
                limb_base,
                product_bits,
            },
        )
    }

    /// The limbs of `v`, and whether `v` fits them: whether it lies from zero
    /// up to, and without, `2^(limb_bits * num_limbs)`.
    fn decompose(&self, v: &BigInt) -> (r: (ResidueInteger, bool))
        requires
            self.wf(),
        ensures
            r.1 <==> 0 <= big_value(*v) < pow(self.base(), self.num_limbs as nat),
            r.1 ==> r.0@ == big_value(*v) && r.0.carried(self.limb_bits as nat)
                && r.0.limbs@.len() == self.num_limbs,
    {
        let (digits, rest) = split_digits(v, &self.limb_base, self.limb_bits, self.num_limbs);
        let zero = big_zero();
        proof {
            let b = self.base();
            let w = pow(b, self.num_limbs as nat);
            let s = limbs_sum(big_values(digits@), b);
            let q = big_value(rest);
            lemma_digits_sum_bound(big_values(digits@), self.limb_bits as nat);
            lemma_digits_bounded(big_values(digits@), self.limb_bits as nat);
            lemma_pow2_pos(self.limb_bits as nat);
            lemma_pow_positive(b, self.num_limbs as nat);
            assert(q == 0 <==> 0 <= s + w * q < w) by (nonlinear_arith)
                requires
                    0 <= s < w,
            ;
        }
        let fits = big_eq(&rest, &zero);
        (ResidueInteger { limbs: digits, value: big_clone(v), max_limb_bits: self.limb_bits }, fits)
    }

    /// Loads a witness. The range check on the limbs admits exactly the
    /// values from zero up to, and without, `2^(limb_bits * num_limbs)`.
    pub fn load_witness(&self, v: &BigInt) -> (r: Result<FieldElement, ChipError>)
        requires
            self.wf(),
        ensures
            match r {
                Ok(x) => x@ == big_value(*v) && x.wf(self),
                Err(e) => e == ChipError::ConstraintViolation(Violation::FieldRange),
            },
            r is Ok <==> 0 <= big_value(*v) < pow(self.base(), self.num_limbs as nat),
    {
        let (x, fits) = self.decompose(v);
        if fits {
            Ok(FieldElement(x))
        } else {
            Err(ChipError::ConstraintViolation(Violation::FieldRange))
        }
    }

    /// Loads a constant of the circuit as the reduced representative of its
    /// class.
    pub fn load_constant(&self, v: &BigInt) -> (r: FieldElement)
        requires
            self.wf(),
        ensures
            r@ == big_value(*v) % self.modulus(),
            r.wf(self),
            r.reduced(self),
    {
        let reduced = big_rem_euclid(v, &self.p);
        proof {
            lemma_mod_bound(big_value(*v), self.modulus());
        }
        let (x, _fits) = self.decompose(&reduced);
        FieldElement(x)
    }

    /// Reduces an unreduced value modulo the prime and puts it back into
    /// carried form.
    pub fn carry_mod(&self, a: &ResidueInteger) -> (r: FieldElement)
        requires
            self.wf(),
            a.wf(self),
        ensures
            r@ == a@ % self.modulus(),
            r.wf(self),
            r.reduced(self),
    {
        self.load_constant(&a.value)
    }

    /// The remainder of a value in the native field: the checksum that
    /// goes with the limbs.
    pub fn native_checksum(&self, a: &ResidueInteger) -> (r: BigInt)
        requires
            self.wf(),
        ensures
            big_value(r) == a@ % self.native(),
            0 <= big_value(r) < self.native(),
    {
        proof {
            lemma_mod_bound(a@, self.native());
        }
        big_rem_euclid(&a.value, &self.native_modulus)
    }

    /// Asserts that an element is the reduced representative of its class.
    pub fn enforce_less_than(&self, a: &FieldElement) -> (r: Result<(), ChipError>)
        requires
            self.wf(),
            a.wf(self),
        ensures
            r is Ok <==> a.reduced(self),
            r matches Err(e) ==> e == ChipError::ConstraintViolation(Violation::FieldReduced),
    {
        proof {
            lemma_digits_sum_bound(a.0.limb_values(), self.limb_bits as nat);
        }
        if big_lt(&a.0.value, &self.p) {
            Ok(())
        } else {
            Err(ChipError::ConstraintViolation(Violation::FieldReduced))
        }
    }

    /// The sum of two values, limb by limb and without reduction.
    pub fn add_no_carry(&self, a: &ResidueInteger, b: &ResidueInteger) -> (r: ResidueInteger)
        requires
            self.wf(),
            a.wf(self),
            b.wf(self),
            longer(a.max_limb_bits as nat, b.max_limb_bits as nat) + 1 <= self.limb_cap(),
        ensures
            r@ == a@ + b@,
            r.limb_values() == limbs_add(a.limb_values(), b.limb_values()),
            r.max_limb_bits == longer(a.max_limb_bits as nat, b.max_limb_bits as nat) + 1,
            r.wf(self),
    {
        let limbs = add_limbs(&a.limbs, &b.limbs);
        let value = big_add(&a.value, &b.value);
        let wider = if a.max_limb_bits >= b.max_limb_bits {
            a.max_limb_bits
        } else {
            b.max_limb_bits
        };
        proof {
            lemma_sum_add(a.limb_values(), b.limb_values(), self.base());
            lemma_add_bounded(
                a.limb_values(),
                b.limb_values(),
                a.max_limb_bits as nat,
                b.max_limb_bits as nat,
            );
            assert(limbs@.len() == big_values(limbs@).len());
        }
        ResidueInteger { limbs, value, max_limb_bits: wider + 1 }
    }

    /// The difference of two values, limb by limb and without reduction.
    pub fn sub_no_carry(&self, a: &ResidueInteger, b: &ResidueInteger) -> (r: ResidueInteger)
        requires
            self.wf(),
            a.wf(self),
            b.wf(self),
            longer(a.max_limb_bits as nat, b.max_limb_bits as nat) + 1 <= self.limb_cap(),
        ensures
            r@ == a@ - b@,
            r.limb_values() == limbs_sub(a.limb_values(), b.limb_values()),
            r.max_limb_bits == longer(a.max_limb_bits as nat, b.max_limb_bits as nat) + 1,
            r.wf(self),
    {
        let limbs = sub_limbs(&a.limbs, &b.limbs);
        let value = big_sub(&a.value, &b.value);
        let wider = if a.max_limb_bits >= b.max_limb_bits {
            a.max_limb_bits
        } else {
            b.max_limb_bits
        };
        proof {
            lemma_sum_sub(a.limb_values(), b.limb_values(), self.base());
            lemma_add_bounded(
                a.limb_values(),
                b.limb_values(),
                a.max_limb_bits as nat,
                b.max_limb_bits as nat,
            );
            assert(limbs@.len() == big_values(limbs@).len());
        }
        ResidueInteger { limbs, value, max_limb_bits: wider + 1 }
    }

    /// The value times a small integer, limb by limb and without reduction.
    pub fn scalar_mul_no_carry(&self, a: &ResidueInteger, c: i64) -> (r: ResidueInteger)
        requires
            self.wf(),
            a.wf(self),
            a.max_limb_bits + bit_length(magnitude(c as int)) <= self.limb_cap(),
        ensures
            r@ == c * a@,
            r.limb_values() == limbs_scale(a.limb_values(), c as int),
            r.max_limb_bits == a.max_limb_bits + bit_length(magnitude(c as int)),
            r.wf(self),
    {
        let factor = big_from_i64(c);
        let limbs = scale_limbs(&a.limbs, &factor);
        let value = big_mul(&factor, &a.value);
        let size: u64 = if c >= 0 {
            c as u64
        } else if c == i64::MIN {
            0x8000_0000_0000_0000u64
        } else {
            (-c) as u64
        };
        let factor_bits = bit_length_of(size);
        proof {
            lemma_bit_length_bound(magnitude(c as int));
            lemma_sum_scale(a.limb_values(), c as int, self.base());
            lemma_scale_bounded(
                a.limb_values(),
                c as int,
                a.max_limb_bits as nat,
                factor_bits as nat,
            );
            assert(limbs@.len() == big_values(limbs@).len());
        }
        ResidueInteger { limbs, value, max_limb_bits: a.max_limb_bits + factor_bits }
    }

    /// The product of two elements as the product of their limb
    /// polynomials, without reduction.
    pub fn mul_no_carry(&self, a: &FieldElement, b: &FieldElement) -> (r: ResidueInteger)
        requires
            self.wf(),
            a.wf(self),
            b.wf(self),
        ensures
            r@ == a@ * b@,
            r.limb_values() == limbs_mul(a.0.limb_values(), b.0.limb_values()),
            r.max_limb_bits == self.product_bits,
            r.wf(self),
    {
        let limbs = mul_limbs(&a.0.limbs, &b.0.limbs);
        let value = big_mul(&a.0.value, &b.0.value);
        proof {
            lemma_sum_mul(a.0.limb_values(), b.0.limb_values(), self.base());
            lemma_mul_bounded(
                a.0.limb_values(),
                b.0.limb_values(),
                self.limb_bits as nat,
                self.limb_bits as nat,
            );
            assert(limbs@.len() == big_values(limbs@).len());
            assert(a.0.limbs@.len() == a.0.limb_values().len());
            assert(b.0.limbs@.len() == b.0.limb_values().len());
        }
        ResidueInteger { limbs, value, max_limb_bits: self.product_bits }
    }

    /// The product of two elements, reduced.
    pub fn mul(&self, a: &FieldElement, b: &FieldElement) -> (r: FieldElement)
        requires
            self.wf(),
            a.wf(self),
            b.wf(self),
        ensures
            r@ == (a@ * b@) % self.modulus(),
            r.wf(self),
            r.reduced(self),
    {
        let product = self.mul_no_carry(a, b);
        self.carry_mod(&product)
    }

    /// The inverse of an element, where it has one.
    pub fn inverse(&self, a: &FieldElement) -> (r: Result<FieldElement, ChipError>)
        requires
            self.wf(),
            a.wf(self),
        ensures
            r is Ok <==> has_inverse(a@, self.modulus()),
            match r {
                Ok(x) => x@ == mod_inverse(a@, self.modulus()) && (a@ * x@) % self.modulus() == 1
                    && x.wf(self) && x.reduced(self),
                Err(e) => e == ChipError::ConstraintViolation(Violation::Divisor),
            },
    {
        proof {
            lemma_small_mod(1, self.modulus() as nat);
        }
        match big_modinv(&a.0.value, &self.p) {
            Some(x) => {
                proof {
                    lemma_mod_inverse_is(a@, big_value(x), self.modulus());
                    lemma_small_mod(big_value(x) as nat, self.modulus() as nat);
                }
                Ok(self.load_constant(&x))
            },
            None => Err(ChipError::ConstraintViolation(Violation::Divisor)),
        }
    }

    /// The quotient of two elements, where the divisor has an inverse.
    pub fn divide(&self, a: &FieldElement, b: &FieldElement) -> (r: Result<FieldElement, ChipError>)
        requires
            self.wf(),
            a.wf(self),
            b.wf(self),
        ensures
            r is Ok <==> has_inverse(b@, self.modulus()),
            match r {
                Ok(x) => x@ == mod_div(a@, b@, self.modulus()) && x.wf(self) && x.reduced(self),
                Err(e) => e == ChipError::ConstraintViolation(Violation::Divisor),
            },
    {
        match self.inverse(b) {
            Ok(inv) => Ok(self.mul(a, &inv)),
            Err(e) => Err(e),
        }
    }

    /// Whether two elements are in the same class modulo the prime.
    pub fn is_equal(&self, a: &FieldElement, b: &FieldElement) -> (r: bool)
        requires
            self.wf(),
            a.wf(self),
            b.wf(self),
        ensures
            r == (a@ % self.modulus() == b@ % self.modulus()),
    {
        let x = big_rem_euclid(&a.0.value, &self.p);
        let y = big_rem_euclid(&b.0.value, &self.p);
        big_eq(&x, &y)
    }

    /// Whether an element is in the class of zero.
    pub fn is_zero(&self, a: &FieldElement) -> (r: bool)
        requires
            self.wf(),
            a.wf(self),
        ensures
            r == (a@ % self.modulus() == 0),
    {
        let x = big_rem_euclid(&a.0.value, &self.p);
        let zero = big_zero();
        big_eq(&x, &zero)
    }

    /// The sum of two elements, reduced.
    pub fn add(&self, a: &FieldElement, b: &FieldElement) -> (r: FieldElement)
        requires
            self.wf(),
            a.wf(self),
            b.wf(self),
        ensures
            r@ == (a@ + b@) % self.modulus(),
            r.wf(self),
            r.reduced(self),
    {
        let sum = self.add_no_carry(&a.0, &b.0);
        self.carry_mod(&sum)
    }

    /// The difference of two elements, reduced.
    pub fn sub(&self, a: &FieldElement, b: &FieldElement) -> (r: FieldElement)
        requires
            self.wf(),
            a.wf(self),
            b.wf(self),
        ensures
            r@ == (a@ - b@) % self.modulus(),
            r.wf(self),
            r.reduced(self),
    {
        let difference = self.sub_no_carry(&a.0, &b.0);
        self.carry_mod(&difference)
    }

    /// The negative of an element, reduced.
    pub fn negate(&self, a: &FieldElement) -> (r: FieldElement)
        requires
            self.wf(),
            a.wf(self),
        ensures
            r@ == (-a@) % self.modulus(),
            r.wf(self),
            r.reduced(self),
    {
        proof {
            assert(bit_length(1) == 1) by {
                reveal_with_fuel(bit_length, 3);
            }
        }
        let negative = self.scalar_mul_no_carry(&a.0, -1);
        assert(-1 * a@ == -a@);
        self.carry_mod(&negative)
    }

    /// A small multiple of an element, reduced.
    pub fn scalar_mul(&self, a: &FieldElement, c: i64) -> (r: FieldElement)
        requires
            self.wf(),
            a.wf(self),
            bit_length(magnitude(c as int)) <= NO_CARRY_HEADROOM,
        ensures
            r@ == (c * a@) % self.modulus(),
            r.wf(self),
            r.reduced(self),
    {
        let multiple = self.scalar_mul_no_carry(&a.0, c);
        self.carry_mod(&multiple)
    }
}

/// Multiplying without carry and then reducing is multiplying in the field:
/// for elements `a` and `b` in carried form, any value whose limbs are the
/// product of their limb polynomials reduces to `a * b` modulo the prime.
pub proof fn lemma_carry_mod_of_mul_no_carry(
    chip: &FpChip,
    a: &FieldElement,
    b: &FieldElement,
    product: &ResidueInteger,
    reduced: &FieldElement,
)
    requires
        chip.wf(),
        a.wf(chip),
        b.wf(chip),
        product.consistent(chip.limb_bits as nat),
        product.limb_values() == limbs_mul(a.0.limb_values(), b.0.limb_values()),
        reduced@ == product@ % chip.modulus(),
    ensures
        product@ == a@ * b@,
        reduced@ == (a@ * b@) % chip.modulus(),
        0 <= reduced@ < chip.modulus(),
{
    lemma_sum_mul(a.0.limb_values(), b.0.limb_values(), chip.base());
    lemma_mod_bound(product@, chip.modulus());
}

/// The limbs of every value that a chip admits fit the native field: each
/// lies strictly between the negative of the native modulus and the native
/// modulus, so that no limb wraps around.
pub proof fn lemma_limbs_fit_native(chip: &FpChip, a: &ResidueInteger)
    requires
        chip.wf(),
        a.wf(chip),
    ensures
        forall|i: int|
            0 <= i < a.limb_values().len() ==> -chip.native() < #[trigger] a.limb_values()[i]
                < chip.native(),
{
    lemma_bit_length_lower(chip.native() as nat);
    if a.max_limb_bits < chip.limb_cap() {
        lemma_pow2_strictly_increases(a.max_limb_bits as nat, chip.limb_cap());
    }
}

/// The limbs and the remainder in the native field together determine a
/// value: two values that a chip with an odd native modulus admits, that
/// agree modulo the native modulus and modulo the range of the limbs, and
/// that differ by less than the range of the limbs times the native
/// modulus, are the same integer.
pub proof fn lemma_residues_determine_value(chip: &FpChip, a: &ResidueInteger, b: &ResidueInteger)
    requires
        chip.wf(),
        chip.native() % 2 == 1,
        a.wf(chip),
        b.wf(chip),
        a@ % chip.native() == b@ % chip.native(),
        a@ % (pow2((chip.limb_bits * chip.num_limbs) as nat) as int) == b@ % (pow2(
            (chip.limb_bits * chip.num_limbs) as nat,
        ) as int),
        -(pow2((chip.limb_bits * chip.num_limbs) as nat) * chip.native()) < a@ - b@ < pow2(
            (chip.limb_bits * chip.num_limbs) as nat,
        ) * chip.native(),
    ensures
        a@ == b@,
{
    lemma_crt_unique(a@, b@, (chip.limb_bits * chip.num_limbs) as nat, chip.native());
}

impl FieldChip for FpChip {
    type Point = FieldElement;

    open spec fn modulus(&self) -> int {
        FpChip::modulus(self)
    }

    open spec fn limb_base(&self) -> int {
        self.base()
    }

    open spec fn limb_count(&self) -> nat {
        self.num_limbs as nat
    }

    open spec fn degree(&self) -> nat {
        1
    }

    open spec fn wf(&self) -> bool {
        FpChip::wf(self)
    }

    open spec fn point_wf(&self, a: &FieldElement) -> bool {
        a.wf(self)
    }

    open spec fn coeffs(&self, a: &FieldElement) -> Seq<int> {
        seq![a@]
    }

    open spec fn field_mul(&self, a: Seq<int>, b: Seq<int>) -> Seq<int> {
        seq![(a[0] * b[0]) % FpChip::modulus(self)]
    }

    open spec fn field_has_inverse(&self, a: Seq<int>) -> bool {
        has_inverse(a[0], FpChip::modulus(self))
    }

    open spec fn field_inverse(&self, a: Seq<int>) -> Seq<int> {
        seq![mod_inverse(a[0], FpChip::modulus(self))]
    }

    fn load_witness(&self, coeffs: &Vec<BigInt>) -> (r: Result<FieldElement, ChipError>) {
        let r = FpChip::load_witness(self, &coeffs[0]);
        proof {
            assert(big_values(coeffs@)[0] == big_value(coeffs@[0]));
            if r is Ok {
                assert(seq![r->Ok_0@] =~= big_values(coeffs@));
            }
        }
        r
    }

    fn load_constant(&self, coeffs: &Vec<BigInt>) -> (r: FieldElement) {
        let r = FpChip::load_constant(self, &coeffs[0]);
        proof {
            assert(big_values(coeffs@)[0] == big_value(coeffs@[0]));
            assert(seq![r@] =~= vec_reduce(FpChip::modulus(self), big_values(coeffs@)));
        }
        r
    }

    fn duplicate(&self, a: &FieldElement) -> (r: FieldElement) {
        a.duplicate()
    }

    fn enforce_less_than(&self, a: &FieldElement) -> (r: Result<(), ChipError>) {
        assert(seq![a@][0] == a@);
        FpChip::enforce_less_than(self, a)
    }

    fn add(&self, a: &FieldElement, b: &FieldElement) -> (r: FieldElement) {
        let r = FpChip::add(self, a, b);
        assert(seq![r@] =~= vec_add(FpChip::modulus(self), seq![a@], seq![b@]));
        r
    }

    fn sub(&self, a: &FieldElement, b: &FieldElement) -> (r: FieldElement) {
        let r = FpChip::sub(self, a, b);
        assert(seq![r@] =~= vec_sub(FpChip::modulus(self), seq![a@], seq![b@]));
        r
    }

    fn negate(&self, a: &FieldElement) -> (r: FieldElement) {
        let r = FpChip::negate(self, a);
        assert(seq![r@] =~= vec_neg(FpChip::modulus(self), seq![a@]));
        r
    }

    fn scalar_mul(&self, a: &FieldElement, c: i64) -> (r: FieldElement) {
        let r = FpChip::scalar_mul(self, a, c);
        assert(seq![r@] =~= vec_scale(FpChip::modulus(self), seq![a@], c as int));
        r
    }

    fn mul(&self, a: &FieldElement, b: &FieldElement) -> (r: FieldElement) {
        FpChip::mul(self, a, b)
    }

    fn divide(&self, a: &FieldElement, b: &FieldElement) -> (r: Result<FieldElement, ChipError>) {
        FpChip::divide(self, a, b)
    }

    fn is_equal(&self, a: &FieldElement, b: &FieldElement) -> (r: bool) {
        let r = FpChip::is_equal(self, a, b);
        proof {
            let p = FpChip::modulus(self);
            assert(vec_reduce(p, seq![a@])[0] == a@ % p);
            assert(vec_reduce(p, seq![b@])[0] == b@ % p);
            if r {
                assert(vec_reduce(p, seq![a@]) =~= vec_reduce(p, seq![b@]));
            }
        }
        r
    }
}

} // verus!
