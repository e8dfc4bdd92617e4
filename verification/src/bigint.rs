//! Big integers in residue form: a sequence of limbs next to the integer
//! that the limbs spell, with a tracked bound on the size of the limbs.

use crate::bignum::{
    big_add, big_clone, big_div_euclid, big_from_u64, big_mul, big_rem_euclid, big_sub, big_value,
    big_zero,
};
use crate::limbs::{
    conv_sum, lemma_conv_below, lemma_conv_beyond, lemma_sum_push, limb_at, limbs_add,
    limbs_are_digits, limbs_bounded, limbs_mul, limbs_scale, limbs_sub, limbs_sum, longer,
};
use num_bigint::BigInt;
use vstd::arithmetic::power2::*;
use vstd::arithmetic::power::*;
use vstd::prelude::*;

verus! {

/// The integers that a vector of big integers holds, in order.
pub open spec fn big_values(limbs: Seq<BigInt>) -> Seq<int> {
    Seq::new(limbs.len(), |i: int| big_value(limbs[i]))
}

/// An integer as limbs of a fixed width, least significant first, together
/// with the integer itself. Between reductions the limbs are signed and may
/// exceed the limb width; `max_limb_bits` bounds them.
pub struct ResidueInteger {
    pub limbs: Vec<BigInt>,
    pub value: BigInt,
    pub max_limb_bits: usize,
}

impl View for ResidueInteger {
    type V = int;

    /// The integer that this value stands for.
    open spec fn view(&self) -> int {
        big_value(self.value)
    }
}

impl ResidueInteger {
    /// The limbs as integers.
    pub open spec fn limb_values(&self) -> Seq<int> {
        big_values(self.limbs@)
    }

    /// The limbs, of width `limb_bits`, spell the value, and every limb is
    /// within the tracked bound.
    pub open spec fn consistent(&self, limb_bits: nat) -> bool {
        &&& self.limbs@.len() > 0
        &&& limbs_sum(self.limb_values(), pow2(limb_bits) as int) == self@
        &&& limbs_bounded(self.limb_values(), self.max_limb_bits as nat)
    }

    /// Every limb is a digit of the base `2^limb_bits`, so that the limbs
    /// are the unique representation of a non-negative value.
    pub open spec fn carried(&self, limb_bits: nat) -> bool {
        &&& self.consistent(limb_bits)
        &&& limbs_are_digits(self.limb_values(), limb_bits)
        &&& self.max_limb_bits == limb_bits
    }

    /// A copy of this value.
    pub fn duplicate(&self) -> (r: ResidueInteger)
        ensures
            r@ == self@,
            r.limb_values() == self.limb_values(),
            r.max_limb_bits == self.max_limb_bits,
    {
        let limbs = copy_limbs(&self.limbs);
        ResidueInteger { limbs, value: big_clone(&self.value), max_limb_bits: self.max_limb_bits }
    }
}

/// Copies a vector of limbs.
pub fn copy_limbs(a: &Vec<BigInt>) -> (r: Vec<BigInt>)
    ensures
        big_values(r@) == big_values(a@),
{
    let mut r: Vec<BigInt> = Vec::new();
    let mut i: usize = 0;
    while i < a.len()
        invariant
            i <= a.len(),
            r@.len() == i,
            forall|j: int| 0 <= j < i ==> big_value(#[trigger] r@[j]) == big_value(a@[j]),
        decreases a.len() - i,
    {
        r.push(big_clone(&a[i]));
        i = i + 1;
    }
    assert(big_values(r@) =~= big_values(a@));
    r
}

/// Adds two vectors of limbs limb by limb.
pub fn add_limbs(a: &Vec<BigInt>, b: &Vec<BigInt>) -> (r: Vec<BigInt>)
    ensures
        big_values(r@) == limbs_add(big_values(a@), big_values(b@)),
{
    let n = if a.len() >= b.len() {
        a.len()
    } else {
        b.len()
    };
    let mut r: Vec<BigInt> = Vec::new();
    let mut i: usize = 0;
    while i < n
        invariant
            i <= n,
            n == longer(a@.len(), b@.len()),
            r@.len() == i,
            forall|j: int|
                0 <= j < i ==> big_value(#[trigger] r@[j]) == limb_at(big_values(a@), j) + limb_at(
                    big_values(b@),
                    j,
                ),
        decreases n - i,
    {
        let sum = if i < a.len() && i < b.len() {
            big_add(&a[i], &b[i])
        } else if i < a.len() {
            big_clone(&a[i])
        } else {
            big_clone(&b[i])
        };
        r.push(sum);
        i = i + 1;
    }
    assert(big_values(r@) =~= limbs_add(big_values(a@), big_values(b@)));
    r
}

/// Subtracts two vectors of limbs limb by limb.
pub fn sub_limbs(a: &Vec<BigInt>, b: &Vec<BigInt>) -> (r: Vec<BigInt>)
    ensures
        big_values(r@) == limbs_sub(big_values(a@), big_values(b@)),
{
    let n = if a.len() >= b.len() {
        a.len()
    } else {
        b.len()
    };
    let mut r: Vec<BigInt> = Vec::new();
    let mut i: usize = 0;
    while i < n
        invariant
            i <= n,
            n == longer(a@.len(), b@.len()),
            r@.len() == i,
            forall|j: int|
                0 <= j < i ==> big_value(#[trigger] r@[j]) == limb_at(big_values(a@), j) - limb_at(
                    big_values(b@),
                    j,
                ),
        decreases n - i,
    {
        let difference = if i < a.len() && i < b.len() {
            big_sub(&a[i], &b[i])
        } else if i < a.len() {
            big_clone(&a[i])
        } else {
            big_sub(&big_zero(), &b[i])
        };
        r.push(difference);
        i = i + 1;
    }
    assert(big_values(r@) =~= limbs_sub(big_values(a@), big_values(b@)));
    r
}

/// Multiplies every limb by `c`.
pub fn scale_limbs(a: &Vec<BigInt>, c: &BigInt) -> (r: Vec<BigInt>)
    ensures
        big_values(r@) == limbs_scale(big_values(a@), big_value(*c)),
{
    let mut r: Vec<BigInt> = Vec::new();
    let mut i: usize = 0;
    while i < a.len()
        invariant
            i <= a.len(),
            r@.len() == i,
            forall|j: int|
                0 <= j < i ==> big_value(#[trigger] r@[j]) == big_value(*c) * big_value(a@[j]),
        decreases a.len() - i,
    {
        r.push(big_mul(c, &a[i]));
        i = i + 1;
    }
    assert(big_values(r@) =~= limbs_scale(big_values(a@), big_value(*c)));
    r
}

/// Multiplies two vectors of limbs as polynomials in the base.
pub fn mul_limbs(a: &Vec<BigInt>, b: &Vec<BigInt>) -> (r: Vec<BigInt>)
    requires
        a@.len() + b@.len() <= usize::MAX,
    ensures
        big_values(r@) == limbs_mul(big_values(a@), big_values(b@)),
{
    let mut r: Vec<BigInt> = Vec::new();
    if a.len() == 0 || b.len() == 0 {
        assert(big_values(r@) =~= limbs_mul(big_values(a@), big_values(b@)));
        return r;
    }
    let n = a.len() + b.len() - 1;
    let ghost av = big_values(a@);
    let ghost bv = big_values(b@);
    let mut t: usize = 0;
    while t < n
        invariant
            t <= n,
            n == a@.len() + b@.len() - 1,
            a@.len() > 0,
            b@.len() > 0,
            av == big_values(a@),
            bv == big_values(b@),
            r@.len() == t,
            forall|j: int| 0 <= j < t ==> big_value(#[trigger] r@[j]) == conv_sum(av, bv, j, a@.len()),
        decreases n - t,
    {
        // Limb `t` collects the products `a[i] * b[t - i]` for `i` from
        // `first` up to, and with, `last`; outside of that `b` has no limb.
        let first = if t + 1 > b.len() {
            t + 1 - b.len()
        } else {
            0
        };
        let last = if t < a.len() {
            t
        } else {
            a.len() - 1
        };
        let mut acc = big_mul(&a[first], &b[t - first]);
        proof {
            if first > 0 {
                lemma_conv_beyond(av, bv, t as int, first as nat);
            }
            assert(conv_sum(av, bv, t as int, first as nat) == 0);
            assert(limb_at(av, first as int) == big_value(a@[first as int]));
            assert(limb_at(bv, t - first) == big_value(b@[t - first]));
            assert(conv_sum(av, bv, t as int, (first + 1) as nat) == conv_sum(
                av,
                bv,
                t as int,
                first as nat,
            ) + limb_at(av, first as int) * limb_at(bv, t - first));
        }
        let mut i: usize = first + 1;
        while i <= last
            invariant
                first < i <= last + 1,
                last < a@.len(),
                a@.len() <= usize::MAX,
                last <= t,
                t - first < b@.len(),
                av == big_values(a@),
                bv == big_values(b@),
                big_value(acc) == conv_sum(av, bv, t as int, i as nat),
            decreases last + 1 - i,
        {
            let term = big_mul(&a[i], &b[t - i]);
            acc = big_add(&acc, &term);
            i = i + 1;
        }
        proof {
            if last + 1 < a@.len() {
                lemma_conv_below(av, bv, t as int, (last + 1) as nat, a@.len() as nat);
            }
        }
        r.push(acc);
        t = t + 1;
    }
    assert(big_values(r@) =~= limbs_mul(big_values(a@), big_values(b@)));
    r
}

/// Two to the power `e`.
pub fn big_pow2(e: usize) -> (r: BigInt)
    ensures
        big_value(r) == pow2(e as nat),
{
    let two = big_from_u64(2);
    let mut r = big_from_u64(1);
    let mut i: usize = 0;
    proof {
        lemma2_to64();
    }
    while i < e
        invariant
            i <= e,
            big_value(two) == 2,
            big_value(r) == pow2(i as nat),
        decreases e - i,
    {
        proof {
            lemma_pow2_unfold((i + 1) as nat);
        }
        r = big_mul(&two, &r);
        i = i + 1;
    }
    r
}

/// Splits `v` into `count` digits of the base and what is left above them:
/// `v == sum(digits) + base^count * rest`.
pub fn split_digits(v: &BigInt, base: &BigInt, limb_bits: usize, count: usize) -> (r: (
    Vec<BigInt>,
    BigInt,
))
    requires
        big_value(*base) == pow2(limb_bits as nat),
    ensures
        r.0@.len() == count,
        limbs_are_digits(big_values(r.0@), limb_bits as nat),
        big_value(*v) == limbs_sum(big_values(r.0@), big_value(*base)) + pow(
            big_value(*base),
            count as nat,
        ) * big_value(r.1),
        big_value(*v) >= 0 <==> big_value(r.1) >= 0,
{
    let ghost b = big_value(*base);
    let mut digits: Vec<BigInt> = Vec::new();
    let mut rest = big_clone(v);
    let mut i: usize = 0;
    proof {
        lemma_pow2_pos(limb_bits as nat);
        lemma_pow0(b);
        assert(pow(b, 0) * big_value(rest) == big_value(rest)) by (nonlinear_arith)
            requires
                pow(b, 0) == 1,
        ;
    }
    while i < count
        invariant
            i <= count,
            b == big_value(*base),
            b == pow2(limb_bits as nat),
            b > 0,
            digits@.len() == i,
            limbs_are_digits(big_values(digits@), limb_bits as nat),
            big_value(*v) == limbs_sum(big_values(digits@), b) + pow(b, i as nat) * big_value(rest),
            big_value(*v) >= 0 <==> big_value(rest) >= 0,
        decreases count - i,
    {
        let digit = big_rem_euclid(&rest, base);
        let next = big_div_euclid(&rest, base);
        proof {
            let old_digits = big_values(digits@);
            let d = big_value(digit);
            let q = big_value(next);
            let x = big_value(rest);
            let w = pow(b, i as nat);
            assert(x == b * q + d && 0 <= d < b) by {
                vstd::arithmetic::div_mod::lemma_fundamental_div_mod(x, b);
                vstd::arithmetic::div_mod::lemma_mod_bound(x, b);
            }
            assert((x >= 0) == (q >= 0)) by (nonlinear_arith)
                requires
                    x == b * q + d,
                    0 <= d < b,
            ;
            lemma_sum_push(old_digits, d, b);
            assert(big_values(digits@.push(digit)) =~= old_digits.push(d));
            lemma_pow_adds(b, i as nat, 1);
            lemma_pow1(b);
            assert(w * x == d * w + (w * b) * q) by (nonlinear_arith)
                requires
                    x == b * q + d,
            ;
        }
        digits.push(digit);
        rest = next;
        i = i + 1;
    }
    (digits, rest)
}

/// The integer that 64-bit limbs spell, least significant first.
pub open spec fn limbs64_value(limbs: Seq<u64>) -> int
    decreases limbs.len(),
{
    if limbs.len() == 0 {
        0
    } else {
        limbs[0] + 0x1_0000_0000_0000_0000 * limbs64_value(limbs.skip(1))
    }
}

/// The big integer that 64-bit limbs spell, least significant first.
pub fn big_from_limbs(limbs: &Vec<u64>) -> (r: BigInt)
    ensures
        big_value(r) == limbs64_value(limbs@),
{
    let shift = big_mul(&big_from_u64(0x1_0000_0000), &big_from_u64(0x1_0000_0000));
    let mut r = big_zero();
    let mut i: usize = limbs.len();
    assert(limbs@.skip(i as int) =~= Seq::<u64>::empty());
    while i > 0
        invariant
            i <= limbs@.len(),
            big_value(shift) == 0x1_0000_0000_0000_0000,
            big_value(r) == limbs64_value(limbs@.skip(i as int)),
        decreases i,
    {
        i = i - 1;
        let low = big_from_u64(limbs[i]);
        let high = big_mul(&shift, &r);
        assert(limbs@.skip(i as int).skip(1) =~= limbs@.skip(i + 1));
        r = big_add(&low, &high);
    }
    assert(limbs@.skip(0) =~= limbs@);
    r
}

} // verus!
