//! Arithmetic modulo a prime as mathematics: what the field chips compute.

use vstd::arithmetic::div_mod::*;
use vstd::arithmetic::power2::*;
use vstd::prelude::*;

verus! {

/// Whether `x` is a multiplicative inverse of `a` modulo `m`.
pub open spec fn inverts(a: int, x: int, m: int) -> bool {
    (a * x) % m == 1int % m
}

/// Whether `a` has a multiplicative inverse modulo `m`.
pub open spec fn has_inverse(a: int, m: int) -> bool {
    exists|x: int| 0 <= x < m && #[trigger] inverts(a, x, m)
}

/// The inverse of `a` modulo `m` in `[0, m)`, where `a` has one.
pub open spec fn mod_inverse(a: int, m: int) -> int {
    choose|x: int| 0 <= x < m && #[trigger] inverts(a, x, m)
}

/// The quotient `a / b` modulo `m`, where `b` has an inverse.
pub open spec fn mod_div(a: int, b: int, m: int) -> int {
    (a * mod_inverse(b, m)) % m
}

/// Two inverses of one number modulo `m` are congruent.
pub proof fn lemma_inverse_unique(a: int, x: int, y: int, m: int)
    requires
        m > 0,
        0 <= x < m,
        0 <= y < m,
        inverts(a, x, m),
        inverts(a, y, m),
    ensures
        x == y,
{
    // x = x * (a * y) = (x * a) * y = y  (mod m)
    lemma_mul_mod_noop_right(x, a * y, m);
    lemma_mul_mod_noop_left(a * x, y, m);
    assert(x * (a * y) == (a * x) * y) by (nonlinear_arith);
    assert(x * (1int % m) == x * 1 || m == 1) by {
        if m > 1 {
            lemma_small_mod(1, m as nat);
        }
    }
    if m > 1 {
        lemma_small_mod(1, m as nat);
        lemma_small_mod(x as nat, m as nat);
        lemma_small_mod(y as nat, m as nat);
        assert((x * ((a * y) % m)) % m == (x * 1) % m);
        assert((((a * x) % m) * y) % m == (1 * y) % m);
    }
}

/// The inverse that the library names is the one in `[0, m)`.
pub proof fn lemma_mod_inverse_is(a: int, x: int, m: int)
    requires
        m > 0,
        0 <= x < m,
        inverts(a, x, m),
    ensures
        has_inverse(a, m),
        mod_inverse(a, m) == x,
{
    let y = mod_inverse(a, m);
    lemma_inverse_unique(a, x, y, m);
}

/// An odd number that divides twice a number divides the number.
pub proof fn lemma_odd_divides_half(d: int, n: int)
    requires
        n > 0,
        n % 2 == 1,
        (2 * d) % n == 0,
    ensures
        d % n == 0,
{
    let k = (2 * d) / n;
    let m = n / 2;
    lemma_fundamental_div_mod(2 * d, n);
    lemma_fundamental_div_mod(n, 2);
    // 2 d = (2 m + 1) k, so k = 2 (d - m k) is even.
    assert(2 * d == (2 * m + 1) * k);
    let j = d - m * k;
    assert(k == 2 * j) by (nonlinear_arith)
        requires
            2 * d == (2 * m + 1) * k,
            j == d - m * k,
    ;
    assert(d == j * n) by (nonlinear_arith)
        requires
            2 * d == n * k,
            k == 2 * j,
    ;
    lemma_mod_multiples_basic(j, n);
}

/// What a power of two and an odd number both divide, their product
/// divides.
pub proof fn lemma_crt_divisible(d: int, t: nat, n: int)
    requires
        n > 0,
        n % 2 == 1,
        d % (pow2(t) as int) == 0,
        d % n == 0,
    ensures
        pow2(t) * n > 0,
        d % (pow2(t) * n) == 0,
    decreases t,
{
    lemma_pow2_pos(t);
    assert(pow2(t) * n > 0) by (nonlinear_arith)
        requires
            pow2(t) > 0,
            n > 0,
    ;
    if t == 0 {
        lemma2_to64();
        assert(pow2(0) * n == n) by (nonlinear_arith)
            requires
                pow2(0) == 1,
        ;
    } else {
        let low = pow2((t - 1) as nat) as int;
        lemma_pow2_unfold(t);
        lemma_pow2_pos((t - 1) as nat);
        let q = d / (pow2(t) as int);
        lemma_fundamental_div_mod(d, pow2(t) as int);
        let half = low * q;
        assert(d == 2 * half) by (nonlinear_arith)
            requires
                d == (2 * low) * q,
                half == low * q,
        ;
        assert(half == q * low) by (nonlinear_arith)
            requires
                half == low * q,
        ;
        lemma_mod_multiples_basic(q, low);
        lemma_odd_divides_half(half, n);
        lemma_crt_divisible(half, (t - 1) as nat, n);
        let j = half / (low * n);
        lemma_fundamental_div_mod(half, low * n);
        assert(d == j * (pow2(t) * n)) by (nonlinear_arith)
            requires
                d == 2 * half,
                half == (low * n) * j,
                pow2(t) == 2 * low,
        ;
        lemma_mod_multiples_basic(j, pow2(t) * n);
    }
}

/// Two integers that agree modulo a power of two and modulo an odd number,
/// and that differ by less than the product of the two moduli, are equal:
/// the limbs and the native remainder together tell values apart far
/// beyond the range of either.
pub proof fn lemma_crt_unique(x: int, y: int, t: nat, n: int)
    requires
        n > 0,
        n % 2 == 1,
        x % (pow2(t) as int) == y % (pow2(t) as int),
        x % n == y % n,
        -(pow2(t) * n) < x - y < pow2(t) * n,
    ensures
        x == y,
{
    let d = x - y;
    let m = pow2(t) * n;
    lemma_pow2_pos(t);
    lemma_mod_equivalence(x, y, pow2(t) as int);
    lemma_mod_equivalence(x, y, n);
    lemma_crt_divisible(d, t, n);
    lemma_fundamental_div_mod(d, m);
    let q = d / m;
    assert(q == 0) by (nonlinear_arith)
        requires
            d == m * q,
            -m < d < m,
            m > 0,
    ;
}

} // verus!
