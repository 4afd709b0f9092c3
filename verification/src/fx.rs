//! Saturating fixed-point arithmetic.
//!
//! Every coordinate, matrix entry, colour component and width in this crate
//! is an `i64` count of micro-units: the value 1 is `FX_ONE` micro-units.
//! Products and quotients are computed exactly in `i128` and then rounded
//! toward zero and clamped into the `i64` range, so every operation is total
//! and its result is pinned down exactly by the spec functions below.

use vstd::prelude::*;

verus! {

use vstd::arithmetic::div_mod::{lemma_div_basics_4, lemma_div_basics_5};
use vstd::math::abs;

/// Toward-zero rounding never grows the magnitude of the dividend.
pub proof fn lemma_tdiv_bound(x: int, d: int)
    requires
        d != 0,
    ensures
        -abs(x) <= tdiv(x, d) <= abs(x),
{
    let m: int = if d >= 1 { d } else { d * -1 };
    let y: int = if x >= 0 { x } else { x * -1 };
    lemma_div_basics_4(y, m);
    lemma_div_basics_5(y, m);
}

/// Micro-units per unit: the fixed-point representation of the value 1.
pub const FX_ONE: i64 = 1_000_000;

/// Clamp a mathematical integer into the `i64` range.
pub open spec fn sat64(x: int) -> int {
    if x > i64::MAX as int {
        i64::MAX as int
    } else if x < i64::MIN as int {
        i64::MIN as int
    } else {
        x
    }
}

/// Quotient of `x` by `d`, rounded toward zero (the rounding of Rust's `/`).
pub open spec fn tdiv(x: int, d: int) -> int
    recommends
        d != 0,
{
    if x == 0 {
        0
    } else if x > 0 && d > 0 {
        x / d
    } else if x < 0 && d < 0 {
        (x * -1) / (d * -1)
    } else if x < 0 {
        ((x * -1) / d) * -1
    } else {
        (x / (d * -1)) * -1
    }
}

/// Saturating fixed-point sum.
pub open spec fn fx_add_v(a: int, b: int) -> int {
    sat64(a + b)
}

/// Saturating fixed-point difference.
pub open spec fn fx_sub_v(a: int, b: int) -> int {
    sat64(a - b)
}

/// Saturating fixed-point product: `a * b` scaled back down by `FX_ONE`,
/// rounded toward zero.
pub open spec fn fx_mul_v(a: int, b: int) -> int {
    sat64(tdiv(a * b, FX_ONE as int))
}

/// Saturating fixed-point quotient: `a / b` scaled up by `FX_ONE`, rounded
/// toward zero. A zero divisor saturates by the sign of `a`, and `0 / 0` is 0.
pub open spec fn fx_div_v(a: int, b: int) -> int {
    if b == 0 {
        if a > 0 {
            i64::MAX as int
        } else if a < 0 {
            i64::MIN as int
        } else {
            0
        }
    } else {
        sat64(tdiv(a * FX_ONE, b))
    }
}

/// The fixed-point representation of the integer `i`.
pub open spec fn fx_of_int_v(i: int) -> int {
    sat64(i * FX_ONE)
}

/// Clamp an `i128` into the `i64` range.
fn clamp64(q: i128) -> (r: i64)
    ensures
        r as int == sat64(q as int),
{
    if q > i64::MAX as i128 {
        i64::MAX
    } else if q < i64::MIN as i128 {
        i64::MIN
    } else {
        q as i64
    }
}

pub fn fx_add(a: i64, b: i64) -> (r: i64)
    ensures
        r as int == fx_add_v(a as int, b as int),
{
    match a.checked_add(b) {
        Some(v) => v,
        None => if b > 0 {
            i64::MAX
        } else {
            i64::MIN
        },
    }
}

pub fn fx_sub(a: i64, b: i64) -> (r: i64)
    ensures
        r as int == fx_sub_v(a as int, b as int),
{
    match a.checked_sub(b) {
        Some(v) => v,
        None => if b < 0 {
            i64::MAX
        } else {
            i64::MIN
        },
    }
}

pub fn fx_mul(a: i64, b: i64) -> (r: i64)
    ensures
        r as int == fx_mul_v(a as int, b as int),
{
    proof {
        assert(i128::MIN as int <= a as int * b as int <= i128::MAX as int)
            by (nonlinear_arith)
            requires
                i64::MIN <= a <= i64::MAX,
                i64::MIN <= b <= i64::MAX,
        ;
    }
    let p: i128 = (a as i128) * (b as i128);
    proof {
        lemma_tdiv_bound(p as int, FX_ONE as int);
    }
    let q: i128 = match p.checked_div(1_000_000i128) {
        Some(v) => v,
        None => 0,
    };
    assert(q as int == tdiv(a as int * b as int, FX_ONE as int));
    clamp64(q)
}

pub fn fx_div(a: i64, b: i64) -> (r: i64)
    ensures
        r as int == fx_div_v(a as int, b as int),
{
    if b == 0 {
        if a > 0 {
            i64::MAX
        } else if a < 0 {
            i64::MIN
        } else {
            0
        }
    } else {
        proof {
            assert(i128::MIN as int <= a as int * FX_ONE as int <= i128::MAX as int)
                by (nonlinear_arith)
                requires
                    i64::MIN <= a <= i64::MAX,
            ;
        }
        let p: i128 = (a as i128) * (FX_ONE as i128);
        proof {
            lemma_tdiv_bound(p as int, b as int);
        }
        let q: i128 = match p.checked_div(b as i128) {
            Some(v) => v,
            None => 0,
        };
        assert(q as int == tdiv(a as int * FX_ONE as int, b as int));
        clamp64(q)
    }
}

/// The fixed-point representation of a small integer.
pub fn fx_of_i64(i: i64) -> (r: i64)
    ensures
        r as int == fx_of_int_v(i as int),
{
    proof {
        assert(i128::MIN as int <= i as int * FX_ONE as int <= i128::MAX as int)
            by (nonlinear_arith)
            requires
                i64::MIN <= i <= i64::MAX,
        ;
    }
    let p: i128 = (i as i128) * (FX_ONE as i128);
    clamp64(p)
}

/// The fixed-point representation of a `u32`, always exact.
pub fn fx_of_u32(i: u32) -> (r: i64)
    ensures
        r as int == i as int * FX_ONE as int,
        r as int == fx_of_int_v(i as int),
{
    assert(u32::MAX as int * FX_ONE as int <= i64::MAX as int);
    assert(i as int * FX_ONE as int <= u32::MAX as int * FX_ONE as int && 0 <= i as int
        * FX_ONE as int) by (nonlinear_arith)
        requires
            0 <= i <= u32::MAX,
    ;
    (i as i64) * FX_ONE
}

} // verus!
