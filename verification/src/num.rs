//! Small integer helpers shared by the simulation: clamping,
//! truncating division and remainder (the rounding the game's
//! fixed-point arithmetic uses), and an integer square root.

use vstd::prelude::*;

verus! {

/// `v` pulled into `[lo, hi]`.
pub open spec fn clamp_spec(v: int, lo: int, hi: int) -> int {
    if v < lo {
        lo
    } else if v > hi {
        hi
    } else {
        v
    }
}

pub fn clamp_i64(v: i64, lo: i64, hi: i64) -> (r: i64)
    requires
        lo <= hi,
    ensures
        r == clamp_spec(v as int, lo as int, hi as int),
{
    if v < lo {
        lo
    } else if v > hi {
        hi
    } else {
        v
    }
}

/// Division rounding toward zero, for a positive divisor: the rounding
/// of Rust's `/` on signed integers.
pub open spec fn div_tr(a: int, b: int) -> int
    recommends
        b > 0,
{
    if a >= 0 {
        a / b
    } else {
        -((-a) / b)
    }
}

/// Remainder matching `div_tr`: the sign of the dividend, as Rust's `%`.
pub open spec fn rem_tr(a: int, b: int) -> int
    recommends
        b > 0,
{
    a - b * div_tr(a, b)
}

pub fn div_trunc(a: i64, b: i64) -> (r: i64)
    requires
        b > 0,
        -MAX_PRODUCT <= a <= MAX_PRODUCT,
    ensures
        r == div_tr(a as int, b as int),
{
    if a >= 0 {
        let q: u64 = (a as u64) / (b as u64);
        q as i64
    } else {
        let q: u64 = ((-a) as u64) / (b as u64);
        -(q as i64)
    }
}

pub fn rem_trunc(a: i64, b: i64) -> (r: i64)
    requires
        b > 0,
        -MAX_PRODUCT <= a <= MAX_PRODUCT,
    ensures
        r == rem_tr(a as int, b as int),
{
    let q = div_trunc(a, b);
    proof {
        lemma_div_tr_bounds(a as int, b as int);
    }
    a - b * q
}

/// Bound under which the truncating helpers accept a dividend: wide
/// enough for every product the simulation forms, small enough that
/// negation and the remainder stay inside i64.
pub const MAX_PRODUCT: i64 = 0x4000_0000_0000_0000;

pub proof fn lemma_div_tr_bounds(a: int, b: int)
    requires
        b > 0,
    ensures
        a >= 0 ==> 0 <= div_tr(a, b) <= a,
        a <= 0 ==> a <= div_tr(a, b) <= 0,
        a >= 0 ==> 0 <= a - b * div_tr(a, b) < b,
        a <= 0 ==> -b < a - b * div_tr(a, b) <= 0,
{
    if a >= 0 {
        vstd::arithmetic::div_mod::lemma_fundamental_div_mod(a, b);
        vstd::arithmetic::div_mod::lemma_mod_bound(a, b);
        vstd::arithmetic::div_mod::lemma_div_basics_4(a, b);
        vstd::arithmetic::div_mod::lemma_div_basics_5(a, b);
    } else {
        vstd::arithmetic::div_mod::lemma_fundamental_div_mod(-a, b);
        vstd::arithmetic::div_mod::lemma_mod_bound(-a, b);
        vstd::arithmetic::div_mod::lemma_div_basics_4(-a, b);
        vstd::arithmetic::div_mod::lemma_div_basics_5(-a, b);
        vstd::arithmetic::mul::lemma_mul_unary_negation(b, (-a) / b);
    }
}

/// A symmetric bound on a product from symmetric bounds on its
/// factors.
pub proof fn lemma_mul_abs_bound(x: int, y: int, x_bound: int, y_bound: int)
    requires
        -x_bound <= x <= x_bound,
        -y_bound <= y <= y_bound,
    ensures
        -(x_bound * y_bound) <= x * y <= x_bound * y_bound,
{
    assert(-(x_bound * y_bound) <= x * y <= x_bound * y_bound) by (nonlinear_arith)
        requires
            -x_bound <= x <= x_bound,
            -y_bound <= y <= y_bound,
    ;
}

/// The floor of the square root of `n`.
pub open spec fn sqrt_floor(n: nat) -> nat
    decreases n,
{
    if n == 0 {
        0
    } else {
        let r = sqrt_floor((n - 1) as nat);
        if (r + 1) * (r + 1) <= n {
            r + 1
        } else {
            r
        }
    }
}

pub proof fn lemma_sqrt_floor_bounds(n: nat)
    ensures
        sqrt_floor(n) * sqrt_floor(n) <= n,
        n < (sqrt_floor(n) + 1) * (sqrt_floor(n) + 1),
    decreases n,
{
    if n == 0 {
        assert(sqrt_floor(0) == 0);
        assert((0nat + 1) * (0nat + 1) == 1) by (nonlinear_arith);
    } else {
        lemma_sqrt_floor_bounds((n - 1) as nat);
        let r = sqrt_floor((n - 1) as nat);
        if (r + 1) * (r + 1) <= n {
            assert(sqrt_floor(n) == r + 1);
            assert(n == (r + 1) * (r + 1));
            assert(n < (r + 1 + 1) * (r + 1 + 1)) by (nonlinear_arith)
                requires
                    n == (r + 1) * (r + 1),
            ;
        } else {
            assert(sqrt_floor(n) == r);
        }
    }
}

/// Any value squeezed between consecutive squares is the floor square root.
pub proof fn lemma_sqrt_floor_unique(n: nat, r: nat)
    requires
        r * r <= n,
        n < (r + 1) * (r + 1),
    ensures
        r == sqrt_floor(n),
{
    lemma_sqrt_floor_bounds(n);
    let s = sqrt_floor(n);
    if r < s {
        assert((r + 1) * (r + 1) <= s * s) by (nonlinear_arith)
            requires
                r + 1 <= s,
        ;
    }
    if s < r {
        assert((s + 1) * (s + 1) <= r * r) by (nonlinear_arith)
            requires
                s + 1 <= r,
        ;
    }
}

pub fn isqrt(n: u64) -> (r: u64)
    ensures
        r == sqrt_floor(n as nat),
{
    let mut lo: u64 = 0;
    let mut hi: u64 = 0xFFFF_FFFF;
    if n >= 0xFFFF_FFFE_0000_0001 {
        proof {
            let top: nat = 0xFFFF_FFFF;
            assert(top * top == 0xFFFF_FFFE_0000_0001 && (top + 1) * (top + 1)
                == 0x1_0000_0000_0000_0000) by (nonlinear_arith)
                requires
                    top == 0xFFFF_FFFF,
            ;
            lemma_sqrt_floor_unique(n as nat, top);
        }
        return 0xFFFF_FFFF;
    }
    while hi - lo > 1
        invariant
            lo < hi <= 0xFFFF_FFFF,
            (lo as nat) * (lo as nat) <= n as nat,
            (n as nat) < (hi as nat) * (hi as nat),
        decreases hi - lo,
    {
        let mid: u64 = lo + (hi - lo) / 2;
        proof {
            assert((mid as int) * (mid as int) <= 0xFFFF_FFFFint * 0xFFFF_FFFFint)
                by (nonlinear_arith)
                requires
                    0 <= mid <= 0xFFFF_FFFFu64,
            ;
        }
        if (mid as u128) * (mid as u128) <= n as u128 {
            lo = mid;
        } else {
            hi = mid;
        }
    }
    proof {
        lemma_sqrt_floor_unique(n as nat, lo as nat);
    }
    lo
}

} // verus!
