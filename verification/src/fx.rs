use vstd::prelude::*;
use vstd::arithmetic::div_mod::lemma_div_by_multiple;
use vstd::arithmetic::div_mod::lemma_div_is_ordered;
use vstd::arithmetic::div_mod::lemma_div_pos_is_pos;
use vstd::arithmetic::div_mod::lemma_fundamental_div_mod;
use vstd::arithmetic::div_mod::lemma_mod_division_less_than_divisor;

verus! {

pub open spec fn abs_sp(v: int) -> int {
    if v >= 0 {
        v
    } else {
        -v
    }
}

pub open spec fn clamp_sp(v: int, lo: int, hi: int) -> int {
    if v < lo {
        lo
    } else if v > hi {
        hi
    } else {
        v
    }
}

/// Integer division truncating toward zero, as the machine division does.
pub open spec fn div_to_zero(v: int, d: int) -> int {
    if v >= 0 {
        v / d
    } else {
        -((-v) / d)
    }
}

pub open spec fn is_isqrt(n: nat, r: nat) -> bool {
    r * r <= n && n < (r + 1) * (r + 1)
}

/// The integer square root: the unique `r` with `r * r <= n < (r + 1) * (r + 1)`.
pub open spec fn isqrt_sp(n: nat) -> nat {
    choose|r: nat| is_isqrt(n, r)
}

pub proof fn lemma_isqrt_exists(n: nat)
    ensures
        is_isqrt(n, isqrt_sp(n)),
    decreases n,
{
    if n == 0 {
        assert(is_isqrt(0, 0)) by (nonlinear_arith);
    } else {
        lemma_isqrt_exists((n - 1) as nat);
        let r = isqrt_sp((n - 1) as nat);
        if n == (r + 1) * (r + 1) {
            assert(is_isqrt(n, r + 1)) by (nonlinear_arith)
                requires
                    n == (r + 1) * (r + 1),
            ;
        } else {
            assert(is_isqrt(n, r));
        }
    }
}

pub proof fn lemma_isqrt_unique(n: nat, r: nat)
    requires
        is_isqrt(n, r),
    ensures
        isqrt_sp(n) == r,
{
    lemma_isqrt_exists(n);
    let q = isqrt_sp(n);
    assert(q == r) by (nonlinear_arith)
        requires
            q * q <= n < (q + 1) * (q + 1),
            r * r <= n < (r + 1) * (r + 1),
    ;
}

/// Truncating division has magnitude no larger than the dividend's.
pub proof fn lemma_div_to_zero_abs(v: int, d: int)
    requires
        d >= 1,
    ensures
        abs_sp(div_to_zero(v, d)) <= abs_sp(v),
        v >= 0 ==> div_to_zero(v, d) >= 0,
        v < 0 ==> div_to_zero(v, d) <= 0,
{
    if v >= 0 {
        lemma_div_pos_is_pos(v, d);
        vstd::arithmetic::div_mod::lemma_div_nonincreasing(v, d);
    } else {
        lemma_div_pos_is_pos(-v, d);
        vstd::arithmetic::div_mod::lemma_div_nonincreasing(-v, d);
    }
}

/// A bound on the dividend scales down through truncating division.
pub proof fn lemma_div_to_zero_bound(v: int, d: int, b: int)
    requires
        d >= 1,
        b >= 0,
        abs_sp(v) <= b * d,
    ensures
        abs_sp(div_to_zero(v, d)) <= b,
{
    if v >= 0 {
        lemma_div_pos_is_pos(v, d);
        lemma_div_is_ordered(v, b * d, d);
        lemma_div_by_multiple(b, d);
    } else {
        lemma_div_pos_is_pos(-v, d);
        lemma_div_is_ordered(-v, b * d, d);
        lemma_div_by_multiple(b, d);
    }
}

pub fn clamp_i64(v: i64, lo: i64, hi: i64) -> (r: i64)
    requires
        lo <= hi,
    ensures
        r == clamp_sp(v as int, lo as int, hi as int),
{
    if v < lo {
        lo
    } else if v > hi {
        hi
    } else {
        v
    }
}

/// Clamped accumulation: `a + b` pulled back into `[lo, hi]`.
pub fn add_clamp_i64(a: i64, b: i128, lo: i64, hi: i64) -> (r: i64)
    requires
        lo <= hi,
        -0x4000_0000_0000_0000_0000_0000_0000_0000 <= b
            <= 0x4000_0000_0000_0000_0000_0000_0000_0000,
    ensures
        r == clamp_sp(a + b, lo as int, hi as int),
{
    let s: i128 = a as i128 + b;
    if s < lo as i128 {
        lo
    } else if s > hi as i128 {
        hi
    } else {
        s as i64
    }
}

/// Machine division of a possibly negative dividend by a positive divisor.
pub fn div_i128(v: i128, d: i128) -> (r: i128)
    requires
        0 < d,
        -0x7fff_ffff_ffff_ffff_ffff_ffff_ffff_ffff <= v,
    ensures
        r == div_to_zero(v as int, d as int),
{
    if v >= 0 {
        let q: u128 = (v as u128) / (d as u128);
        proof {
            lemma_div_pos_is_pos(v as int, d as int);
            vstd::arithmetic::div_mod::lemma_div_nonincreasing(v as int, d as int);
        }
        q as i128
    } else {
        let m: u128 = ((-v) as u128) / (d as u128);
        proof {
            lemma_div_pos_is_pos(-(v as int), d as int);
            vstd::arithmetic::div_mod::lemma_div_nonincreasing(-(v as int), d as int);
        }
        -(m as i128)
    }
}

pub fn isqrt_u128(n: u128) -> (r: u128)
    ensures
        r as nat == isqrt_sp(n as nat),
        (r as nat) * (r as nat) <= n as nat,
        (n as nat) < ((r as nat) + 1) * ((r as nat) + 1),
{
    let mut lo: u128 = 0;
    let mut hi: u128 = 0x1_0000_0000_0000_0000;
    proof {
        assert((0x1_0000_0000_0000_0000 as int) * (0x1_0000_0000_0000_0000 as int) > u128::MAX
            as int) by (nonlinear_arith);
    }
    while lo + 1 < hi
        invariant
            lo < hi <= 0x1_0000_0000_0000_0000,
            (lo as nat) * (lo as nat) <= n as nat,
            (n as nat) < (hi as nat) * (hi as nat),
        decreases hi - lo,
    {
        let mid: u128 = lo + (hi - lo) / 2;
        proof {
            assert((mid as nat) * (mid as nat)
                < 0x1_0000_0000_0000_0000_0000_0000_0000_0000nat) by (nonlinear_arith)
                requires
                    mid < 0x1_0000_0000_0000_0000u128,
            ;
        }
        if mid * mid <= n {
            lo = mid;
        } else {
            hi = mid;
        }
    }
    proof {
        assert(hi == lo + 1);
        lemma_isqrt_unique(n as nat, lo as nat);
    }
    lo
}

/// `floor(a / b) * b <= a < (floor(a / b) + 1) * b` for nonnegative `a`, positive `b`.
pub proof fn lemma_div_bounds(a: int, b: int)
    requires
        a >= 0,
        b > 0,
    ensures
        (a / b) * b <= a < (a / b + 1) * b,
        a / b >= 0,
{
    lemma_fundamental_div_mod(a, b);
    lemma_mod_division_less_than_divisor(a, b);
    lemma_div_pos_is_pos(a, b);
    assert((a / b) * b <= a < (a / b + 1) * b) by (nonlinear_arith)
        requires
            a == b * (a / b) + a % b,
            0 <= a % b < b,
    ;
}

} // verus!
