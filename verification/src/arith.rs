//! Whole-number arithmetic: magnitudes, rounded quotients and square roots.
use vstd::prelude::*;

verus! {

/// Whether `s` is the square root of `n` rounded down.
pub open spec fn is_floor_sqrt(n: int, s: int) -> bool {
    0 <= s && s * s <= n < (s + 1) * (s + 1)
}

/// The square root of `n` rounded down to a whole number.
pub open spec fn floor_sqrt(n: nat) -> nat {
    choose|s: nat| is_floor_sqrt(n as int, s as int)
}

/// The magnitude of `v`.
pub open spec fn magnitude(v: int) -> int {
    if v < 0 {
        -v
    } else {
        v
    }
}

/// `n / d` rounded up, for `n >= 0` and `d > 0`.
pub open spec fn ceil_div(n: int, d: int) -> int {
    (n + d - 1) / d
}

/// The product of two numbers of bounded magnitude has bounded magnitude.
pub proof fn lemma_product_bound(x: int, y: int, m: int, n: int)
    requires
        -m <= x <= m,
        -n <= y <= n,
    ensures
        -(m * n) <= x * y <= m * n,
{
    assert(-(m * n) <= x * y <= m * n) by (nonlinear_arith)
        requires
            -m <= x <= m,
            -n <= y <= n,
    ;
}

/// Squaring keeps the order of natural numbers.
pub proof fn lemma_square_monotonic(a: int, b: int)
    requires
        0 <= a <= b,
    ensures
        a * a <= b * b,
{
    assert(a * a <= b * b) by (nonlinear_arith)
        requires
            0 <= a <= b,
    ;
}

/// At most one number is the rounded-down root of `n`.
pub proof fn lemma_floor_sqrt_unique(n: int, s: int, t: int)
    requires
        is_floor_sqrt(n, s),
        is_floor_sqrt(n, t),
    ensures
        s == t,
{
    if s < t {
        lemma_square_monotonic(s + 1, t);
    } else if t < s {
        lemma_square_monotonic(t + 1, s);
    }
}

/// Every natural number has a rounded-down root.
pub proof fn lemma_floor_sqrt_exists(n: nat) -> (s: nat)
    ensures
        is_floor_sqrt(n as int, s as int),
    decreases n,
{
    if n == 0 {
        assert(is_floor_sqrt(0, 0));
        0
    } else {
        let r = lemma_floor_sqrt_exists((n - 1) as nat);
        let r1: int = r as int + 1;
        assert(r1 * r1 == (r + 1) * (r + 1));
        if r1 * r1 <= n {
            assert((r1 + 1) * (r1 + 1) > r1 * r1) by (nonlinear_arith)
                requires
                    r1 >= 0,
            ;
            assert(is_floor_sqrt(n as int, r1));
            r1 as nat
        } else {
            assert(is_floor_sqrt(n as int, r as int));
            r
        }
    }
}

/// `floor_sqrt(n)` is the rounded-down root of `n`, and the only one.
pub proof fn lemma_floor_sqrt(n: nat)
    ensures
        is_floor_sqrt(n as int, floor_sqrt(n) as int),
        forall|s: int| is_floor_sqrt(n as int, s) ==> s == floor_sqrt(n),
{
    let w = lemma_floor_sqrt_exists(n);
    assert(is_floor_sqrt(n as int, floor_sqrt(n) as int));
    assert forall|s: int| is_floor_sqrt(n as int, s) implies s == floor_sqrt(n) by {
        lemma_floor_sqrt_unique(n as int, s, floor_sqrt(n) as int);
    }
}

/// The square root of `n`, rounded down.
pub fn isqrt(n: u128) -> (s: u64)
    ensures
        s == floor_sqrt(n as nat),
        is_floor_sqrt(n as int, s as int),
{
    let mut lo: u128 = 0;
    let mut hi: u128 = 0x1_0000_0000_0000_0000;
    assert(hi * hi > n) by (nonlinear_arith)
        requires
            hi == 0x1_0000_0000_0000_0000,
            n <= u128::MAX,
    ;
    while hi - lo > 1
        invariant
            lo < hi <= 0x1_0000_0000_0000_0000,
            lo * lo <= n < hi * hi,
        decreases hi - lo,
    {
        let mid: u128 = lo + (hi - lo) / 2;
        assert(mid * mid <= 0xffff_ffff_ffff_ffff * 0xffff_ffff_ffff_ffff) by (nonlinear_arith)
            requires
                0 <= mid <= 0xffff_ffff_ffff_ffff,
        ;
        if mid * mid <= n {
            lo = mid;
        } else {
            hi = mid;
        }
    }
    proof {
        assert(hi == lo + 1);
        assert(hi * hi == (lo + 1) * (lo + 1));
        assert(is_floor_sqrt(n as int, lo as int));
        lemma_floor_sqrt(n as nat);
    }
    lo as u64
}

/// Two to the power of 64.
pub open spec fn half_word() -> int {
    0x1_0000_0000_0000_0000
}

/// The number whose upper 128 bits are `hi` and whose lower 128 bits are `lo`.
pub open spec fn wide(hi: int, lo: int) -> int {
    hi * half_word() * half_word() + lo
}

/// The product of `a` and `b` in two halves of 128 bits: the upper half and
/// the lower half.
pub fn mul_wide(a: u128, b: u128) -> (r: (u128, u128))
    ensures
        wide(r.0 as int, r.1 as int) == a * b,
{
    let a1: u128 = a / 0x1_0000_0000_0000_0000;
    let a0: u128 = a % 0x1_0000_0000_0000_0000;
    let b1: u128 = b / 0x1_0000_0000_0000_0000;
    let b0: u128 = b % 0x1_0000_0000_0000_0000;
    proof {
        lemma_product_bound(a0 as int, b0 as int, 0xffff_ffff_ffff_ffff, 0xffff_ffff_ffff_ffff);
        lemma_product_bound(a0 as int, b1 as int, 0xffff_ffff_ffff_ffff, 0xffff_ffff_ffff_ffff);
        lemma_product_bound(a1 as int, b0 as int, 0xffff_ffff_ffff_ffff, 0xffff_ffff_ffff_ffff);
        lemma_product_bound(a1 as int, b1 as int, 0xffff_ffff_ffff_ffff, 0xffff_ffff_ffff_ffff);
    }
    let p00: u128 = a0 * b0;
    let p01: u128 = a0 * b1;
    let p10: u128 = a1 * b0;
    let p11: u128 = a1 * b1;
    let w1: u128 = p00 / 0x1_0000_0000_0000_0000 + p01 % 0x1_0000_0000_0000_0000 + p10
        % 0x1_0000_0000_0000_0000;
    let lo: u128 = (w1 % 0x1_0000_0000_0000_0000) * 0x1_0000_0000_0000_0000 + p00
        % 0x1_0000_0000_0000_0000;
    let hi: u128 = p11 + p01 / 0x1_0000_0000_0000_0000 + p10 / 0x1_0000_0000_0000_0000 + w1
        / 0x1_0000_0000_0000_0000;
    proof {
        let h = half_word();
        assert(a * b == p11 * h * h + (p01 + p10) * h + p00) by (nonlinear_arith)
            requires
                a == a1 * h + a0,
                b == b1 * h + b0,
                p00 == a0 * b0,
                p01 == a0 * b1,
                p10 == a1 * b0,
                p11 == a1 * b1,
        ;
        let hi_sum = p11 + p01 / 0x1_0000_0000_0000_0000 + p10 / 0x1_0000_0000_0000_0000 + w1
            / 0x1_0000_0000_0000_0000;
        assert(p11 * h * h + (p01 + p10) * h + p00 == hi_sum * h * h + lo) by (nonlinear_arith)
            requires
                h == 0x1_0000_0000_0000_0000,
                hi_sum == p11 + p01 / 0x1_0000_0000_0000_0000 + p10 / 0x1_0000_0000_0000_0000 + w1
                    / 0x1_0000_0000_0000_0000,
                w1 == p00 / 0x1_0000_0000_0000_0000 + p01 % 0x1_0000_0000_0000_0000 + p10
                    % 0x1_0000_0000_0000_0000,
                lo == (w1 % 0x1_0000_0000_0000_0000) * 0x1_0000_0000_0000_0000 + p00
                    % 0x1_0000_0000_0000_0000,
        ;
    }
    (hi, lo)
}

/// Whether `a * b` is less than `c * d`, where the products may be too large
/// for 128 bits.
pub fn product_less(a: u128, b: u128, c: u128, d: u128) -> (r: bool)
    ensures
        r == (a * b < c * d),
{
    let left = mul_wide(a, b);
    let right = mul_wide(c, d);
    proof {
        let h = half_word();
        assert(forall|x: int, y: int| x < y ==> #[trigger] (x * h * h) + h * h <= #[trigger] (y
            * h * h)) by (nonlinear_arith)
            requires
                h == 0x1_0000_0000_0000_0000,
        ;
        assert(h * h == 0x1_0000_0000_0000_0000_0000_0000_0000_0000);
        let l = left.0 as int;
        let r = right.0 as int;
        if l < r {
            assert(l * h * h + h * h <= r * h * h);
        }
        if r < l {
            assert(r * h * h + h * h <= l * h * h);
        }
    }
    left.0 < right.0 || (left.0 == right.0 && left.1 < right.1)
}

} // verus!
