//! Signed fixed-point arithmetic.
//!
//! Every quantity in the tracer (coordinates, colors, ray parameters) is a
//! signed integer holding the real value times [`FX_ONE`].  Products and
//! quotients are truncated toward zero, exactly as the spec functions
//! [`fxmul`] and [`fxdiv`] describe, so the contracts of the geometry
//! kernels can state bit-exact results.

use vstd::arithmetic::div_mod::{lemma_div_is_ordered, lemma_div_is_ordered_by_denominator};
use vstd::prelude::*;

verus! {

/// The fixed-point number one: 2^24.
pub const FX_ONE: i64 = 0x100_0000;

/// |a| as a mathematical integer.
pub open spec fn absi(a: int) -> int {
    if a < 0 {
        -a
    } else {
        a
    }
}

/// Quotient of `a` by `b` truncated toward zero, the rounding that the
/// executable helpers implement (`b != 0`).
pub open spec fn qz(a: int, b: int) -> int {
    let m = absi(a) / absi(b);
    if (a < 0) != (b < 0) {
        -m
    } else {
        m
    }
}

/// The fixed-point product of `a` and `b`.
pub open spec fn fxmul(a: int, b: int) -> int {
    qz(a * b, FX_ONE as int)
}

/// The fixed-point quotient of `a` by `b`.
pub open spec fn fxdiv(a: int, b: int) -> int {
    qz(a * (FX_ONE as int), b)
}

/// The integer square root: the largest `r` with `r * r <= n`.
pub open spec fn sqrti(n: nat) -> nat
    decreases n,
{
    if n == 0 {
        0
    } else {
        let r = sqrti((n - 1) as nat);
        if (r + 1) * (r + 1) <= n {
            r + 1
        } else {
            r
        }
    }
}

/// The fixed-point square root of a nonnegative fixed-point value
/// (zero for negative inputs).
pub open spec fn fxsqrt(x: int) -> int {
    if x <= 0 {
        0
    } else {
        sqrti((x * (FX_ONE as int)) as nat) as int
    }
}

/// Bounds on a product follow from bounds on the factors.
pub proof fn lemma_mul_bounds(a: int, b: int, am: int, bm: int)
    by (nonlinear_arith)
    requires
        -am <= a <= am,
        -bm <= b <= bm,
    ensures
        -(am * bm) <= a * b <= am * bm,
{
}

/// A truncated quotient is no larger in magnitude than the bound on the
/// numerator divided by a lower bound on the denominator's magnitude.
pub proof fn lemma_qz_bound2(a: int, b: int, m: int, c: int)
    requires
        b != 0,
        -m <= a <= m,
        0 < c <= absi(b),
    ensures
        -(m / c) <= qz(a, b) <= m / c,
{
    lemma_div_is_ordered(absi(a), m, absi(b));
    lemma_div_is_ordered_by_denominator(m, c, absi(b));
    assert(absi(a) / absi(b) <= m / c);
    vstd::arithmetic::div_mod::lemma_div_pos_is_pos(absi(a), absi(b));
}

/// Magnitude bound for a truncated quotient with known denominator.
pub proof fn lemma_qz_bound(a: int, b: int, m: int)
    requires
        b > 0,
        -m <= a <= m,
    ensures
        -(m / b) <= qz(a, b) <= m / b,
{
    lemma_qz_bound2(a, b, m, b);
}

/// Magnitude bound for a fixed-point product.
pub proof fn lemma_fxmul_bound(a: int, b: int, am: int, bm: int)
    requires
        -am <= a <= am,
        -bm <= b <= bm,
    ensures
        -((am * bm) / (FX_ONE as int)) <= fxmul(a, b) <= (am * bm) / (FX_ONE as int),
{
    lemma_mul_bounds(a, b, am, bm);
    lemma_qz_bound(a * b, FX_ONE as int, am * bm);
}

/// Between two multiples of `l` there is room for a whole step.
pub proof fn lemma_mod_step(a: int, n: int, l: int)
    requires
        l > 0,
        0 <= a < n,
        a % l == 0,
        n % l == 0,
    ensures
        a + l <= n,
{
    if a + l > n {
        vstd::arithmetic::div_mod::lemma_fundamental_div_mod(a, l);
        vstd::arithmetic::div_mod::lemma_fundamental_div_mod(n, l);
        let qa = a / l;
        let qn = n / l;
        assert(a == l * qa && n == l * qn);
        assert(qa < qn) by (nonlinear_arith)
            requires
                a < n,
                a == l * qa,
                n == l * qn,
                l > 0,
        ;
        assert(l * (qa + 1) <= l * qn) by (nonlinear_arith)
            requires
                qa + 1 <= qn,
                l > 0,
        ;
        assert(l * (qa + 1) == l * qa + l) by (nonlinear_arith);
    }
}

/// A quotient of nonnegative by positive is nonnegative.
pub proof fn lemma_qz_nonneg(a: int, b: int)
    requires
        a >= 0,
        b > 0,
    ensures
        qz(a, b) >= 0,
{
    vstd::arithmetic::div_mod::lemma_div_pos_is_pos(a, b);
}

/// A fixed-point square is nonnegative.
pub proof fn lemma_fxmul_self_nonneg(x: int)
    ensures
        fxmul(x, x) >= 0,
{
    assert(x * x >= 0) by (nonlinear_arith);
    lemma_qz_nonneg(x * x, FX_ONE as int);
}

/// Truncating division of `a` by `b`, the executable form of [`qz`].
pub fn div_qz(a: i128, b: i128) -> (r: i128)
    requires
        b != 0,
        a != i128::MIN,
        b != i128::MIN,
    ensures
        r == qz(a as int, b as int),
        absi(r as int) <= absi(a as int),
{
    let am: u128 = if a < 0 {
        (-a) as u128
    } else {
        a as u128
    };
    let bm: u128 = if b < 0 {
        (-b) as u128
    } else {
        b as u128
    };
    let m: u128 = am / bm;
    proof {
        assert(am as int == absi(a as int));
        assert(bm as int == absi(b as int));
        lemma_qz_bound2(a as int, b as int, absi(a as int), 1);
        assert(m as int == absi(a as int) / absi(b as int)) by {
            assert(bm > 0);
        };
    }
    if (a < 0) != (b < 0) {
        -(m as i128)
    } else {
        m as i128
    }
}

/// Executable fixed-point product on wide intermediates.
pub fn mul_fx(a: i128, b: i128) -> (r: i128)
    requires
        -0x4000_0000_0000_0000 < a < 0x4000_0000_0000_0000,
        -0x4000_0000_0000_0000 < b < 0x4000_0000_0000_0000,
    ensures
        r == fxmul(a as int, b as int),
{
    proof {
        lemma_mul_bounds(a as int, b as int, 0x4000_0000_0000_0000, 0x4000_0000_0000_0000);
    }
    let p: i128 = a * b;
    div_qz(p, FX_ONE as i128)
}

/// Executable fixed-point quotient on wide intermediates.
pub fn div_fx(a: i128, b: i128) -> (r: i128)
    requires
        b != 0,
        b != i128::MIN,
        -0x1000_0000_0000_0000_0000_0000 < a < 0x1000_0000_0000_0000_0000_0000,
    ensures
        r == fxdiv(a as int, b as int),
{
    proof {
        lemma_mul_bounds(a as int, FX_ONE as int, 0x1000_0000_0000_0000_0000_0000, FX_ONE as int);
    }
    let p: i128 = a * (FX_ONE as i128);
    div_qz(p, b)
}

/// The integer square root by bisection.
pub fn isqrt(n: u128) -> (r: u128)
    requires
        n < 0x4000_0000_0000_0000_0000_0000_0000_0000,
    ensures
        r as int == sqrti(n as nat),
        r * r <= n,
        n < (r + 1) * (r + 1),
        r < 0x8000_0000_0000_0000,
{
    let mut lo: u128 = 0;
    let mut hi: u128 = 0x8000_0000_0000_0000;
    while hi - lo > 1
        invariant
            lo < hi <= 0x8000_0000_0000_0000,
            (lo * lo) as int <= n as int,
            (n as int) < (hi as int) * (hi as int),
        decreases hi - lo,
    {
        let mid: u128 = lo + (hi - lo) / 2;
        proof {
            lemma_mul_bounds(mid as int, mid as int, 0x8000_0000_0000_0000, 0x8000_0000_0000_0000);
        }
        if mid * mid <= n {
            lo = mid;
        } else {
            hi = mid;
        }
    }
    proof {
        assert(hi == lo + 1);
        lemma_sqrti_unique(n as nat, lo as nat);
    }
    lo
}

/// The bracketing `r*r <= n < (r+1)*(r+1)` pins down the integer square root.
pub proof fn lemma_sqrti_bracket(n: nat)
    ensures
        sqrti(n) * sqrti(n) <= n,
        n < (sqrti(n) + 1) * (sqrti(n) + 1),
    decreases n,
{
    if n == 0 {
        assert(sqrti(n) == 0);
        assert(n < (sqrti(n) + 1) * (sqrti(n) + 1)) by (nonlinear_arith)
            requires
                n == 0,
                sqrti(n) == 0,
        ;
    } else {
        lemma_sqrti_bracket((n - 1) as nat);
        let r = sqrti((n - 1) as nat);
        assert(r * r <= n - 1 && n - 1 < (r + 1) * (r + 1));
        if (r + 1) * (r + 1) <= n {
            assert(sqrti(n) == r + 1);
            assert(n < (r + 1 + 1) * (r + 1 + 1)) by (nonlinear_arith)
                requires
                    n <= (r + 1) * (r + 1),
                    r >= 0,
            ;
        } else {
            assert(sqrti(n) == r);
        }
    }
}

/// Any `r` with `r*r <= n < (r+1)*(r+1)` equals `sqrti(n)`.
pub proof fn lemma_sqrti_unique(n: nat, r: nat)
    requires
        r * r <= n,
        n < (r + 1) * (r + 1),
    ensures
        r == sqrti(n),
{
    lemma_sqrti_bracket(n);
    let s = sqrti(n);
    if r < s {
        assert((r + 1) * (r + 1) <= s * s) by (nonlinear_arith)
            requires
                r + 1 <= s,
                r >= 0,
        ;
    }
    if s < r {
        assert((s + 1) * (s + 1) <= r * r) by (nonlinear_arith)
            requires
                s + 1 <= r,
                s >= 0,
        ;
    }
}

/// Executable fixed-point square root (zero for nonpositive inputs).
pub fn sqrt_fx(x: i128) -> (r: i128)
    requires
        x < 0x1000_0000_0000_0000_0000_0000,
    ensures
        r == fxsqrt(x as int),
        0 <= r < 0x8000_0000_0000_0000,
        x > 0 ==> r * r <= x * (FX_ONE as int) && x * (FX_ONE as int) < (r + 1) * (r + 1),
{
    if x <= 0 {
        0
    } else {
        proof {
            lemma_mul_bounds(x as int, FX_ONE as int, 0x1000_0000_0000_0000_0000_0000, 0x100_0000);
        }
        let w: u128 = (x as u128) * (FX_ONE as u128);
        let r = isqrt(w);
        r as i128
    }
}

} // verus!
