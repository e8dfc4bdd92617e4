//! Sequences of limbs as mathematical objects: the integer that they spell
//! and the limb-wise operations that the field chip performs before it
//! reduces.

use vstd::arithmetic::power2::*;
use vstd::arithmetic::power::*;
use vstd::prelude::*;

verus! {

/// The integer that `limbs` spell in the given base, least significant limb
/// first.
pub open spec fn limbs_sum(limbs: Seq<int>, base: int) -> int
    decreases limbs.len(),
{
    if limbs.len() == 0 {
        0
    } else {
        limbs_sum(limbs.drop_last(), base) + limbs.last() * pow(base, (limbs.len() - 1) as nat)
    }
}

/// Limb `i` of `limbs`, and zero beyond its end.
pub open spec fn limb_at(limbs: Seq<int>, i: int) -> int {
    if 0 <= i < limbs.len() {
        limbs[i]
    } else {
        0
    }
}

/// The longer of two lengths.
pub open spec fn longer(a: nat, b: nat) -> nat {
    if a >= b {
        a
    } else {
        b
    }
}

/// Limb-wise sum; the shorter operand is continued with zeros.
pub open spec fn limbs_add(a: Seq<int>, b: Seq<int>) -> Seq<int> {
    Seq::new(longer(a.len(), b.len()), |i: int| limb_at(a, i) + limb_at(b, i))
}

/// Limb-wise difference; the shorter operand is continued with zeros.
pub open spec fn limbs_sub(a: Seq<int>, b: Seq<int>) -> Seq<int> {
    Seq::new(longer(a.len(), b.len()), |i: int| limb_at(a, i) - limb_at(b, i))
}

/// Every limb multiplied by `c`.
pub open spec fn limbs_scale(a: Seq<int>, c: int) -> Seq<int> {
    Seq::new(a.len(), |i: int| c * a[i])
}

/// The sum of `a[i] * b[t - i]` over the first `n` limbs of `a`.
pub open spec fn conv_sum(a: Seq<int>, b: Seq<int>, t: int, n: nat) -> int
    decreases n,
{
    if n == 0 {
        0
    } else {
        conv_sum(a, b, t, (n - 1) as nat) + limb_at(a, n - 1) * limb_at(b, t - (n - 1))
    }
}

/// The limbs of the product as polynomials in the base: limb `t` collects
/// every `a[i] * b[j]` with `i + j == t`.
pub open spec fn limbs_mul(a: Seq<int>, b: Seq<int>) -> Seq<int> {
    if a.len() == 0 || b.len() == 0 {
        Seq::empty()
    } else {
        Seq::new((a.len() + b.len() - 1) as nat, |t: int| conv_sum(a, b, t, a.len()))
    }
}

/// `a` moved up by `n` limbs: `n` zeros, then the limbs of `a`.
pub open spec fn limbs_shift(a: Seq<int>, n: nat) -> Seq<int> {
    Seq::new(
        n + a.len(),
        |i: int|
            if i < n {
                0
            } else {
                a[i - n]
            },
    )
}

/// Every limb lies strictly between `-2^bits` and `2^bits`.
pub open spec fn limbs_bounded(limbs: Seq<int>, bits: nat) -> bool {
    forall|i: int| 0 <= i < limbs.len() ==> -pow2(bits) < #[trigger] limbs[i] < pow2(bits)
}

/// Every limb is a digit of the base `2^bits`.
pub open spec fn limbs_are_digits(limbs: Seq<int>, bits: nat) -> bool {
    forall|i: int| 0 <= i < limbs.len() ==> 0 <= #[trigger] limbs[i] < pow2(bits)
}

/// The number of binary digits of `n`.
pub open spec fn bit_length(n: nat) -> nat
    decreases n,
{
    if n == 0 {
        0
    } else {
        1 + bit_length(n / 2)
    }
}

/// A number is below two to the number of its binary digits.
pub proof fn lemma_bit_length_bound(n: nat)
    ensures
        n < pow2(bit_length(n)),
    decreases n,
{
    if n == 0 {
        lemma_pow2_pos(0);
    } else {
        lemma_bit_length_bound(n / 2);
        lemma_pow2_unfold(bit_length(n));
    }
}

/// A positive number is at least two to one less than the number of its
/// binary digits.
pub proof fn lemma_bit_length_lower(n: nat)
    requires
        n >= 1,
    ensures
        bit_length(n) >= 1,
        pow2((bit_length(n) - 1) as nat) <= n,
    decreases n,
{
    if n == 1 {
        lemma2_to64();
        assert(bit_length(1) == 1) by {
            reveal_with_fuel(bit_length, 3);
        }
    } else {
        lemma_bit_length_lower(n / 2);
        lemma_pow2_unfold((bit_length(n) - 1) as nat);
    }
}

/// Multiplication distributes over sums and differences.
proof fn lemma_mul_distributes(x: int, y: int, z: int)
    by (nonlinear_arith)
    ensures
        (x + y) * z == x * z + y * z,
        (x - y) * z == x * z - y * z,
        z * (x + y) == z * x + z * y,
{
}

/// Multiplication is associative and commutative.
proof fn lemma_mul_assoc(x: int, y: int, z: int)
    by (nonlinear_arith)
    ensures
        (x * y) * z == x * (y * z),
        x * y == y * x,
{
}

/// A further limb adds its multiple of the next power of the base.
pub proof fn lemma_sum_push(s: Seq<int>, x: int, base: int)
    ensures
        limbs_sum(s.push(x), base) == limbs_sum(s, base) + x * pow(base, s.len()),
{
    assert(s.push(x).drop_last() =~= s);
}

/// The limbs of a sum spell the sum of the two integers.
pub proof fn lemma_sum_add(a: Seq<int>, b: Seq<int>, base: int)
    ensures
        limbs_sum(limbs_add(a, b), base) == limbs_sum(a, base) + limbs_sum(b, base),
    decreases longer(a.len(), b.len()),
{
    let n = longer(a.len(), b.len());
    let s = limbs_add(a, b);
    if n > 0 {
        let a1 = if a.len() == n {
            a.drop_last()
        } else {
            a
        };
        let b1 = if b.len() == n {
            b.drop_last()
        } else {
            b
        };
        lemma_sum_add(a1, b1, base);
        assert(s.drop_last() =~= limbs_add(a1, b1));
        let w = pow(base, (n - 1) as nat);
        assert(s.last() == limb_at(a, n - 1) + limb_at(b, n - 1));
        lemma_mul_distributes(limb_at(a, n - 1), limb_at(b, n - 1), w);
        assert(limbs_sum(a, base) == limbs_sum(a1, base) + limb_at(a, n - 1) * w) by {
            if a.len() != n {
                assert(limb_at(a, n - 1) * w == 0) by (nonlinear_arith)
                    requires
                        limb_at(a, n - 1) == 0,
                ;
            }
        }
        assert(limbs_sum(b, base) == limbs_sum(b1, base) + limb_at(b, n - 1) * w) by {
            if b.len() != n {
                assert(limb_at(b, n - 1) * w == 0) by (nonlinear_arith)
                    requires
                        limb_at(b, n - 1) == 0,
                ;
            }
        }
    }
}

/// Scaled limbs spell the scaled integer.
pub proof fn lemma_sum_scale(a: Seq<int>, c: int, base: int)
    ensures
        limbs_sum(limbs_scale(a, c), base) == c * limbs_sum(a, base),
    decreases a.len(),
{
    let s = limbs_scale(a, c);
    if a.len() == 0 {
        assert(c * 0 == 0) by (nonlinear_arith);
    } else {
        lemma_sum_scale(a.drop_last(), c, base);
        assert(s.drop_last() =~= limbs_scale(a.drop_last(), c));
        let w = pow(base, (a.len() - 1) as nat);
        lemma_mul_assoc(c, a.last(), w);
        lemma_mul_distributes(limbs_sum(a.drop_last(), base), a.last() * w, c);
    }
}

/// The limbs of a difference spell the difference of the two integers.
pub proof fn lemma_sum_sub(a: Seq<int>, b: Seq<int>, base: int)
    ensures
        limbs_sum(limbs_sub(a, b), base) == limbs_sum(a, base) - limbs_sum(b, base),
{
    let nb = limbs_scale(b, -1);
    lemma_sum_scale(b, -1, base);
    lemma_sum_add(a, nb, base);
    assert(limbs_sub(a, b) =~= limbs_add(a, nb));
}

/// Limbs moved up by `n` places spell the integer times the base to the
/// power `n`.
proof fn lemma_sum_shift(a: Seq<int>, n: nat, base: int)
    ensures
        limbs_sum(limbs_shift(a, n), base) == pow(base, n) * limbs_sum(a, base),
    decreases a.len() + n,
{
    let s = limbs_shift(a, n);
    if s.len() == 0 {
        assert(pow(base, n) * 0 == 0) by (nonlinear_arith);
    } else if a.len() == 0 {
        lemma_sum_shift(a, (n - 1) as nat, base);
        assert(s.drop_last() =~= limbs_shift(a, (n - 1) as nat));
        assert(pow(base, (n - 1) as nat) * 0 == 0) by (nonlinear_arith);
        assert(pow(base, n) * 0 == 0) by (nonlinear_arith);
        assert(0 * pow(base, (s.len() - 1) as nat) == 0) by (nonlinear_arith);
    } else {
        lemma_sum_shift(a.drop_last(), n, base);
        assert(s.drop_last() =~= limbs_shift(a.drop_last(), n));
        let w = pow(base, (a.len() - 1) as nat);
        lemma_pow_adds(base, n, (a.len() - 1) as nat);
        lemma_mul_assoc(a.last(), pow(base, n), w);
        lemma_mul_assoc(a.last(), w, pow(base, n));
        lemma_mul_assoc(pow(base, n), a.last(), w);
        lemma_mul_distributes(limbs_sum(a.drop_last(), base), a.last() * w, pow(base, n));
    }
}

/// The first `n` terms of a limb of the product do not see the last limb
/// of `a` while `n` is below the length of `a`.
proof fn lemma_conv_prefix(a: Seq<int>, b: Seq<int>, t: int, n: nat)
    requires
        0 < a.len(),
        n < a.len(),
    ensures
        conv_sum(a, b, t, n) == conv_sum(a.drop_last(), b, t, n),
    decreases n,
{
    if n > 0 {
        lemma_conv_prefix(a, b, t, (n - 1) as nat);
    }
}

/// Terms whose limb of `b` would lie below its first add nothing: the sum
/// does not grow from `n` terms to `m` terms once `n` is above `t`.
pub proof fn lemma_conv_below(a: Seq<int>, b: Seq<int>, t: int, n: nat, m: nat)
    requires
        t < n <= m,
    ensures
        conv_sum(a, b, t, m) == conv_sum(a, b, t, n),
    decreases m,
{
    if n < m {
        lemma_conv_below(a, b, t, n, (m - 1) as nat);
        assert(limb_at(a, m - 1) * 0 == 0) by (nonlinear_arith);
    }
}

/// Terms whose limb of `b` would lie beyond its last add nothing.
pub proof fn lemma_conv_beyond(a: Seq<int>, b: Seq<int>, t: int, n: nat)
    requires
        t - n + 1 >= b.len(),
    ensures
        conv_sum(a, b, t, n) == 0,
    decreases n,
{
    if n > 0 {
        lemma_conv_beyond(a, b, t, (n - 1) as nat);
        assert(limb_at(a, n - 1) * 0 == 0) by (nonlinear_arith);
    }
}

/// The limbs of a product spell the product of the two integers.
pub proof fn lemma_sum_mul(a: Seq<int>, b: Seq<int>, base: int)
    ensures
        limbs_sum(limbs_mul(a, b), base) == limbs_sum(a, base) * limbs_sum(b, base),
    decreases a.len(),
{
    let sa = limbs_sum(a, base);
    let sb = limbs_sum(b, base);
    if a.len() == 0 {
        assert(0 * sb == 0) by (nonlinear_arith);
    } else if b.len() == 0 {
        assert(sa * 0 == 0) by (nonlinear_arith);
    } else {
        let a1 = a.drop_last();
        let top = (a.len() - 1) as nat;
        let scaled = limbs_scale(b, a.last());
        let shifted = limbs_shift(scaled, top);
        let low = limbs_mul(a1, b);
        let s = limbs_mul(a, b);
        assert(s =~= limbs_add(low, shifted)) by {
            assert forall|t: int| 0 <= t < s.len() implies s[t] == limb_at(low, t) + limb_at(
                shifted,
                t,
            ) by {
                let x = limb_at(a, top as int);
                let y = limb_at(b, t - top);
                assert(s[t] == conv_sum(a, b, t, top) + x * y);
                assert(x == a.last());
                if top > 0 {
                    lemma_conv_prefix(a, b, t, top);
                }
                if t >= low.len() && top > 0 {
                    lemma_conv_beyond(a, b, t, top);
                }
                assert(limb_at(low, t) == conv_sum(a, b, t, top));
                if t < top {
                    assert(y == 0);
                    assert(x * y == 0) by (nonlinear_arith)
                        requires
                            y == 0,
                    ;
                    assert(limb_at(shifted, t) == 0);
                } else {
                    assert(shifted[t] == scaled[t - top]);
                    assert(scaled[t - top] == a.last() * b[t - top]);
                }
            }
        }
        lemma_sum_add(low, shifted, base);
        lemma_sum_shift(scaled, top, base);
        lemma_sum_scale(b, a.last(), base);
        lemma_sum_mul(a1, b, base);
        let w = pow(base, top);
        let s1 = limbs_sum(a1, base);
        assert(s1 * sb + w * (a.last() * sb) == (s1 + a.last() * w) * sb) by (nonlinear_arith);
    }
}

/// The product of two numbers within `a` and `b` bits is within `a + b`
/// bits.
proof fn lemma_product_bound(x: int, y: int, a: nat, b: nat)
    requires
        -pow2(a) < x < pow2(a),
        -pow2(b) < y < pow2(b),
    ensures
        -pow2(a + b) < x * y < pow2(a + b),
{
    lemma_pow2_adds(a, b);
    let m = pow2(a) as int;
    let n = pow2(b) as int;
    assert(-(m * n) < x * y < m * n) by (nonlinear_arith)
        requires
            -m < x < m,
            -n < y < n,
    ;
}

/// The sum of `n` products of limbs is within `n` times the bound of one
/// product.
proof fn lemma_conv_bound(a: Seq<int>, b: Seq<int>, t: int, n: nat, abits: nat, bbits: nat)
    requires
        limbs_bounded(a, abits),
        limbs_bounded(b, bbits),
    ensures
        -(n * pow2(abits + bbits)) <= conv_sum(a, b, t, n) <= n * pow2(abits + bbits),
    decreases n,
{
    let m = pow2(abits + bbits) as int;
    if n == 0 {
        assert(0 * m == 0) by (nonlinear_arith);
    } else {
        lemma_conv_bound(a, b, t, (n - 1) as nat, abits, bbits);
        lemma_pow2_pos(abits);
        lemma_pow2_pos(bbits);
        lemma_product_bound(limb_at(a, n - 1), limb_at(b, t - (n - 1)), abits, bbits);
        assert((n - 1) * m + m == n * m) by (nonlinear_arith);
    }
}

/// The limbs of a sum need one more bit than the wider operand.
pub proof fn lemma_add_bounded(a: Seq<int>, b: Seq<int>, abits: nat, bbits: nat)
    requires
        limbs_bounded(a, abits),
        limbs_bounded(b, bbits),
    ensures
        limbs_bounded(limbs_add(a, b), longer(abits, bbits) + 1),
        limbs_bounded(limbs_sub(a, b), longer(abits, bbits) + 1),
{
    let m = longer(abits, bbits);
    lemma_pow2_unfold(m + 1);
    lemma_pow2_pos(abits);
    lemma_pow2_pos(bbits);
    if abits < m {
        lemma_pow2_strictly_increases(abits, m);
    }
    if bbits < m {
        lemma_pow2_strictly_increases(bbits, m);
    }
    assert forall|i: int| 0 <= i < limbs_add(a, b).len() implies -pow2(m + 1) < #[trigger] limbs_add(
        a,
        b,
    )[i] < pow2(m + 1) by {
        assert(-pow2(abits) < limb_at(a, i) < pow2(abits));
        assert(-pow2(bbits) < limb_at(b, i) < pow2(bbits));
    }
    assert forall|i: int| 0 <= i < limbs_sub(a, b).len() implies -pow2(m + 1) < #[trigger] limbs_sub(
        a,
        b,
    )[i] < pow2(m + 1) by {
        assert(-pow2(abits) < limb_at(a, i) < pow2(abits));
        assert(-pow2(bbits) < limb_at(b, i) < pow2(bbits));
    }
}

/// Scaling by a factor of `cbits` bits widens the limbs by as many bits.
pub proof fn lemma_scale_bounded(a: Seq<int>, c: int, abits: nat, cbits: nat)
    requires
        limbs_bounded(a, abits),
        -pow2(cbits) < c < pow2(cbits),
    ensures
        limbs_bounded(limbs_scale(a, c), abits + cbits),
{
    assert forall|i: int| 0 <= i < a.len() implies -pow2(abits + cbits) < #[trigger] limbs_scale(
        a,
        c,
    )[i] < pow2(abits + cbits) by {
        lemma_product_bound(c, a[i], cbits, abits);
    }
}

/// The limbs of a product need the bits of both operands and those of the
/// number of terms that a limb collects.
pub proof fn lemma_mul_bounded(a: Seq<int>, b: Seq<int>, abits: nat, bbits: nat)
    requires
        limbs_bounded(a, abits),
        limbs_bounded(b, bbits),
    ensures
        limbs_bounded(limbs_mul(a, b), abits + bbits + bit_length(a.len())),
{
    let s = limbs_mul(a, b);
    let m = pow2(abits + bbits) as int;
    let n = a.len() as int;
    let e = pow2(bit_length(a.len())) as int;
    lemma_bit_length_bound(a.len());
    lemma_pow2_adds(abits + bbits, bit_length(a.len()));
    lemma_pow2_pos(abits + bbits);
    assert(n * m < m * e) by (nonlinear_arith)
        requires
            0 <= n < e,
            m > 0,
    ;
    assert(pow2(abits + bbits + bit_length(a.len())) == m * e);
    assert forall|t: int| 0 <= t < s.len() implies -pow2(abits + bbits + bit_length(a.len()))
        < #[trigger] s[t] < pow2(abits + bbits + bit_length(a.len())) by {
        lemma_conv_bound(a, b, t, a.len(), abits, bbits);
        assert(s[t] == conv_sum(a, b, t, a.len()));
    }
}

} // verus!
