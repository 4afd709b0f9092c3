//! The current transformation matrix and the point transform to device space.

use vstd::prelude::*;
use crate::fx::{fx_add, fx_add_v, fx_mul, fx_mul_v, fx_of_u32, fx_sub, fx_sub_v, tdiv, FX_ONE};

verus! {

use vstd::arithmetic::div_mod::lemma_div_multiples_vanish;
use vstd::math::abs;

/// A 2x3 affine transform `[a b 0; c d 0; e f 1]` over fixed-point entries.
#[derive(Debug, Clone, Copy, PartialEq, Eq, Structural)]
pub struct CTM {
    pub a: i64,
    pub b: i64,
    pub c: i64,
    pub d: i64,
    pub e: i64,
    pub f: i64,
}

/// A point in device pixels, in fixed-point micro-units.
#[derive(Debug, Clone, Copy, PartialEq, Eq, Structural)]
pub struct Coord {
    pub x: i64,
    pub y: i64,
}

impl Default for Coord {
    fn default() -> (r: Coord)
        ensures
            r == (Coord { x: 0i64, y: 0i64 }),
    {
        Coord { x: 0, y: 0 }
    }
}

/// An integer text matrix.
#[derive(Debug)]
pub struct TextMatrix {
    pub a: i64,
    pub b: i64,
    pub c: i64,
    pub d: i64,
    pub e: i64,
    pub f: i64,
}

/// Conversion from PDF user space to output pixels: `height` is the output
/// pixel height (used to flip the Y axis) and `scale` is the fixed-point
/// uniform world-to-device scale.
#[derive(Debug, Clone, Copy, PartialEq, Eq, Structural)]
pub struct DeviceScale {
    pub height: u32,
    pub scale: i64,
}

/// The identity transform.
pub open spec fn ctm_identity() -> CTM {
    CTM { a: FX_ONE, b: 0i64, c: 0i64, d: FX_ONE, e: 0i64, f: 0i64 }
}

impl Default for CTM {
    fn default() -> (r: CTM)
        ensures
            r == ctm_identity(),
    {
        CTM { a: FX_ONE, b: 0, c: 0, d: FX_ONE, e: 0, f: 0 }
    }
}

/// One linear entry of a matrix product: `a1*b1 + a2*b2` in fixed point.
pub open spec fn mul_add2_v(a1: int, b1: int, a2: int, b2: int) -> i64 {
    fx_add_v(fx_mul_v(a1, b1), fx_mul_v(a2, b2)) as i64
}

/// One translation entry of a matrix product: `a1*b1 + a2*b2 + t` in fixed point.
pub open spec fn mul_add3_v(a1: int, b1: int, a2: int, b2: int, t: int) -> i64 {
    fx_add_v(fx_add_v(fx_mul_v(a1, b1), fx_mul_v(a2, b2)) as int, t) as i64
}

/// Matrix composition, entry for entry as [`concat`] computes it.
pub open spec fn concat_v(m1: CTM, m2: CTM) -> CTM {
    CTM {
        a: mul_add2_v(m1.a as int, m2.a as int, m1.c as int, m2.b as int),
        b: mul_add2_v(m1.b as int, m2.a as int, m1.d as int, m2.b as int),
        c: mul_add2_v(m1.a as int, m2.c as int, m1.c as int, m2.d as int),
        d: mul_add2_v(m1.b as int, m2.c as int, m1.d as int, m2.d as int),
        e: mul_add3_v(m1.a as int, m2.e as int, m1.b as int, m2.f as int, m1.e as int),
        f: mul_add3_v(m1.b as int, m2.e as int, m1.d as int, m2.f as int, m1.f as int),
    }
}

/// Compose two transforms: the result applies `m2` first and `m1` second
/// (post-multiplication of the CTM, as the `cm` and `Tm` operators need it).
pub fn concat(m1: &CTM, m2: &CTM) -> (r: CTM)
    ensures
        r == concat_v(*m1, *m2),
{
    CTM {
        a: fx_add(fx_mul(m1.a, m2.a), fx_mul(m1.c, m2.b)),
        b: fx_add(fx_mul(m1.b, m2.a), fx_mul(m1.d, m2.b)),
        c: fx_add(fx_mul(m1.a, m2.c), fx_mul(m1.c, m2.d)),
        d: fx_add(fx_mul(m1.b, m2.c), fx_mul(m1.d, m2.d)),
        e: fx_add(fx_add(fx_mul(m1.a, m2.e), fx_mul(m1.b, m2.f)), m1.e),
        f: fx_add(fx_add(fx_mul(m1.b, m2.e), fx_mul(m1.d, m2.f)), m1.f),
    }
}

/// The device-space image of a user-space point: scale the transformed point
/// and flip the Y axis so that the origin moves to the top-left corner.
pub open spec fn transform_v(xy: Coord, ctm: CTM, scale: DeviceScale) -> Coord {
    Coord {
        x: fx_mul_v(
            scale.scale as int,
            mul_add3_v(ctm.a as int, xy.x as int, ctm.c as int, xy.y as int, ctm.e as int) as int,
        ) as i64,
        y: fx_sub_v(
            scale.height as int * FX_ONE as int,
            fx_mul_v(
                scale.scale as int,
                mul_add3_v(
                    ctm.b as int,
                    xy.x as int,
                    ctm.d as int,
                    xy.y as int,
                    ctm.f as int,
                ) as int,
            ),
        ) as i64,
    }
}

/// Dividing an exact multiple of a positive `d` by `d` recovers the factor.
pub proof fn lemma_tdiv_exact(k: int, d: int)
    requires
        d > 0,
    ensures
        tdiv(d * k, d) == k,
{
    if k > 0 {
        lemma_div_multiples_vanish(k, d);
        assert(d * k > 0) by (nonlinear_arith)
            requires
                d > 0 && k > 0,
        ;
    } else if k < 0 {
        lemma_div_multiples_vanish(-k, d);
        assert(d * k < 0 && d * k * -1 == d * (-k)) by (nonlinear_arith)
            requires
                d > 0 && k < 0,
        ;
    } else {
        assert(d * k == 0) by (nonlinear_arith)
            requires
                k == 0,
        ;
    }
}

/// A fixed-point product with one or with zero is exact.
pub proof fn lemma_fx_mul_one(x: i64)
    ensures
        fx_mul_v(x as int, FX_ONE as int) == x as int,
        fx_mul_v(FX_ONE as int, x as int) == x as int,
        fx_mul_v(x as int, 0) == 0,
        fx_mul_v(0, x as int) == 0,
{
    let one: int = FX_ONE as int;
    let xi: int = x as int;
    lemma_tdiv_exact(xi, one);
    assert(xi * one == one * xi && xi * 0 == 0 && 0 * xi == 0) by (nonlinear_arith);
}

/// Composing with the identity transform on either side changes nothing.
pub proof fn lemma_concat_identity(m: CTM)
    ensures
        concat_v(ctm_identity(), m) == m,
        concat_v(m, ctm_identity()) == m,
{
    lemma_fx_mul_one(m.a);
    lemma_fx_mul_one(m.b);
    lemma_fx_mul_one(m.c);
    lemma_fx_mul_one(m.d);
    lemma_fx_mul_one(m.e);
    lemma_fx_mul_one(m.f);
}

/// A transform that only scales and translates: no rotation or skew.
pub open spec fn scale_translate(m: CTM) -> bool {
    m.b == 0 && m.c == 0
}

/// Every entry is a whole number of units (an exact multiple of `FX_ONE`).
pub open spec fn ctm_integral(m: CTM) -> bool {
    &&& m.a as int % (FX_ONE as int) == 0
    &&& m.b as int % (FX_ONE as int) == 0
    &&& m.c as int % (FX_ONE as int) == 0
    &&& m.d as int % (FX_ONE as int) == 0
    &&& m.e as int % (FX_ONE as int) == 0
    &&& m.f as int % (FX_ONE as int) == 0
}

/// Every entry is at most `bound` whole units in magnitude.
pub open spec fn ctm_bounded(m: CTM, bound: int) -> bool {
    &&& -(bound * FX_ONE) <= m.a as int <= bound * FX_ONE
    &&& -(bound * FX_ONE) <= m.b as int <= bound * FX_ONE
    &&& -(bound * FX_ONE) <= m.c as int <= bound * FX_ONE
    &&& -(bound * FX_ONE) <= m.d as int <= bound * FX_ONE
    &&& -(bound * FX_ONE) <= m.e as int <= bound * FX_ONE
    &&& -(bound * FX_ONE) <= m.f as int <= bound * FX_ONE
}

/// The whole-unit value of an integral fixed-point number.
pub open spec fn units(x: i64) -> int {
    x as int / FX_ONE as int
}

/// The fixed-point product of whole-unit values is their exact product.
proof fn lemma_fx_mul_integral(x: i64, y: i64, bx: int, by: int)
    requires
        x as int % (FX_ONE as int) == 0,
        y as int % (FX_ONE as int) == 0,
        -(bx * FX_ONE) <= x as int <= bx * FX_ONE,
        -(by * FX_ONE) <= y as int <= by * FX_ONE,
        0 <= bx,
        0 <= by,
        bx * by * FX_ONE <= i64::MAX as int,
    ensures
        fx_mul_v(x as int, y as int) == FX_ONE as int * (units(x) * units(y)),
        -(bx * by) <= units(x) * units(y) <= bx * by,
{
    let one: int = FX_ONE as int;
    let p: int = units(x);
    let q: int = units(y);
    vstd::arithmetic::div_mod::lemma_fundamental_div_mod(x as int, one);
    vstd::arithmetic::div_mod::lemma_fundamental_div_mod(y as int, one);
    assert(-bx <= p <= bx && -by <= q <= by) by (nonlinear_arith)
        requires
            one > 0,
            x as int == one * p + 0,
            y as int == one * q + 0,
            -(bx * one) <= x as int <= bx * one,
            -(by * one) <= y as int <= by * one,
    ;
    assert(x as int * y as int == one * (one * (p * q)) && -(bx * by) <= p * q <= bx * by)
        by (nonlinear_arith)
        requires
            x as int == one * p + 0,
            y as int == one * q + 0,
            -bx <= p <= bx,
            -by <= q <= by,
    ;
    lemma_tdiv_exact(one * (p * q), one);
    assert(-(bx * by * one) <= one * (p * q) <= bx * by * one) by (nonlinear_arith)
        requires
            one > 0,
            -(bx * by) <= p * q <= bx * by,
    ;
}

/// Whole-unit characterisation of composing two scale-translate matrices
/// whose entries are whole units within the given bounds.
proof fn lemma_concat_st(m1: CTM, m2: CTM, b1: int, b2: int)
    requires
        scale_translate(m1),
        scale_translate(m2),
        ctm_integral(m1),
        ctm_integral(m2),
        ctm_bounded(m1, b1),
        ctm_bounded(m2, b2),
        0 <= b1,
        0 <= b2,
        (b1 * b2 + b1) * FX_ONE <= i64::MAX as int,
    ensures
        scale_translate(concat_v(m1, m2)),
        ctm_integral(concat_v(m1, m2)),
        ctm_bounded(concat_v(m1, m2), b1 * b2 + b1),
        units(concat_v(m1, m2).a) == units(m1.a) * units(m2.a),
        units(concat_v(m1, m2).d) == units(m1.d) * units(m2.d),
        units(concat_v(m1, m2).e) == units(m1.a) * units(m2.e) + units(m1.e),
        units(concat_v(m1, m2).f) == units(m1.d) * units(m2.f) + units(m1.f),
{
    let one: int = FX_ONE as int;
    let bb: int = b1 * b2 + b1;
    assert((b1 * b2 + b1) * (FX_ONE as int) == b1 * b2 * (FX_ONE as int) + b1 * (FX_ONE as int))
        by (nonlinear_arith);
    assert(0 <= b1 * (FX_ONE as int) && 0 <= b1 * b2) by (nonlinear_arith)
        requires
            0 <= b1,
            0 <= b2,
            FX_ONE as int > 0,
    ;
    assert(b1 * b2 * (FX_ONE as int) <= i64::MAX as int && b1 <= bb && b1 * b2 <= bb);
    lemma_fx_mul_integral(m1.a, m2.a, b1, b2);
    lemma_fx_mul_integral(m1.d, m2.d, b1, b2);
    lemma_fx_mul_integral(m1.a, m2.e, b1, b2);
    lemma_fx_mul_integral(m1.d, m2.f, b1, b2);
    lemma_fx_mul_one(m1.b);
    lemma_fx_mul_one(m1.d);
    lemma_fx_mul_one(m2.b);
    lemma_fx_mul_one(m2.e);
    lemma_fx_mul_one(m2.f);
    vstd::arithmetic::div_mod::lemma_fundamental_div_mod(m1.e as int, one);
    vstd::arithmetic::div_mod::lemma_fundamental_div_mod(m1.f as int, one);
    // Every surviving entry is FX_ONE times a whole-unit expression.
    let ua: int = units(m1.a) * units(m2.a);
    let ud: int = units(m1.d) * units(m2.d);
    let ue: int = units(m1.a) * units(m2.e) + units(m1.e);
    let uf: int = units(m1.d) * units(m2.f) + units(m1.f);
    assert(-b1 <= units(m1.e) <= b1 && -b1 <= units(m1.f) <= b1) by (nonlinear_arith)
        requires
            one > 0,
            m1.e as int == one * units(m1.e) + 0,
            m1.f as int == one * units(m1.f) + 0,
            -(b1 * one) <= m1.e as int <= b1 * one,
            -(b1 * one) <= m1.f as int <= b1 * one,
    ;
    assert(one * ua == one * (units(m1.a) * units(m2.a)) + 0 && -(bb * one) <= one * ua <= bb
        * one) by (nonlinear_arith)
        requires
            one > 0,
            ua == units(m1.a) * units(m2.a),
            -(b1 * b2) <= units(m1.a) * units(m2.a) <= b1 * b2,
            b1 * b2 <= bb,
            0 <= bb,
    ;
    assert(-(bb * one) <= one * ud <= bb * one) by (nonlinear_arith)
        requires
            one > 0,
            ud == units(m1.d) * units(m2.d),
            -(b1 * b2) <= units(m1.d) * units(m2.d) <= b1 * b2,
            b1 * b2 <= bb,
            0 <= bb,
    ;
    assert(one * ue == one * (units(m1.a) * units(m2.e)) + one * units(m1.e) && -(bb * one)
        <= one * ue <= bb * one) by (nonlinear_arith)
        requires
            one > 0,
            ue == units(m1.a) * units(m2.e) + units(m1.e),
            -(b1 * b2) <= units(m1.a) * units(m2.e) <= b1 * b2,
            -b1 <= units(m1.e) <= b1,
            b1 * b2 + b1 == bb,
    ;
    assert(one * uf == one * (units(m1.d) * units(m2.f)) + one * units(m1.f) && -(bb * one)
        <= one * uf <= bb * one) by (nonlinear_arith)
        requires
            one > 0,
            uf == units(m1.d) * units(m2.f) + units(m1.f),
            -(b1 * b2) <= units(m1.d) * units(m2.f) <= b1 * b2,
            -b1 <= units(m1.f) <= b1,
            b1 * b2 + b1 == bb,
    ;
    assert(concat_v(m1, m2).a as int == one * ua);
    assert(concat_v(m1, m2).b == 0 && concat_v(m1, m2).c == 0);
    assert(concat_v(m1, m2).d as int == one * ud);
    assert(concat_v(m1, m2).e as int == one * ue);
    assert(concat_v(m1, m2).f as int == one * uf);
    lemma_units_exact(ua);
    lemma_units_exact(ud);
    lemma_units_exact(ue);
    lemma_units_exact(uf);
    lemma_units_exact(0);
}

/// `FX_ONE * k` is integral with whole-unit value `k`.
proof fn lemma_units_exact(k: int)
    ensures
        (FX_ONE as int * k) % (FX_ONE as int) == 0,
        (FX_ONE as int * k) / (FX_ONE as int) == k,
{
    let one: int = FX_ONE as int;
    assert(one * k == k * one) by (nonlinear_arith);
    vstd::arithmetic::div_mod::lemma_mod_multiples_basic(k, one);
    lemma_div_multiples_vanish(k, one);
}

/// Composition of scale-translate transforms with whole-unit entries of at
/// most ten thousand units is associative. (With rotation or skew entries,
/// or with fractional entries, composition rounds and is not associative.)
pub proof fn lemma_concat_assoc(m1: CTM, m2: CTM, m3: CTM)
    requires
        scale_translate(m1),
        scale_translate(m2),
        scale_translate(m3),
        ctm_integral(m1),
        ctm_integral(m2),
        ctm_integral(m3),
        ctm_bounded(m1, 10000),
        ctm_bounded(m2, 10000),
        ctm_bounded(m3, 10000),
    ensures
        concat_v(concat_v(m1, m2), m3) == concat_v(m1, concat_v(m2, m3)),
{
    let one: int = FX_ONE as int;
    let b: int = 10000;
    let bb: int = b * b + b;
    lemma_concat_st(m1, m2, b, b);
    lemma_concat_st(m2, m3, b, b);
    lemma_concat_st(concat_v(m1, m2), m3, bb, b);
    lemma_concat_st(m1, concat_v(m2, m3), b, bb);
    let lhs = concat_v(concat_v(m1, m2), m3);
    let rhs = concat_v(m1, concat_v(m2, m3));
    assert(units(lhs.a) == units(rhs.a) && units(lhs.d) == units(rhs.d) && units(lhs.e)
        == units(rhs.e) && units(lhs.f) == units(rhs.f)) by (nonlinear_arith)
        requires
            units(lhs.a) == (units(m1.a) * units(m2.a)) * units(m3.a),
            units(rhs.a) == units(m1.a) * (units(m2.a) * units(m3.a)),
            units(lhs.d) == (units(m1.d) * units(m2.d)) * units(m3.d),
            units(rhs.d) == units(m1.d) * (units(m2.d) * units(m3.d)),
            units(lhs.e) == (units(m1.a) * units(m2.a)) * units(m3.e) + (units(m1.a) * units(
                m2.e,
            ) + units(m1.e)),
            units(rhs.e) == units(m1.a) * (units(m2.a) * units(m3.e) + units(m2.e)) + units(
                m1.e,
            ),
            units(lhs.f) == (units(m1.d) * units(m2.d)) * units(m3.f) + (units(m1.d) * units(
                m2.f,
            ) + units(m1.f)),
            units(rhs.f) == units(m1.d) * (units(m2.d) * units(m3.f) + units(m2.f)) + units(
                m1.f,
            ),
    ;
    vstd::arithmetic::div_mod::lemma_fundamental_div_mod(lhs.a as int, one);
    vstd::arithmetic::div_mod::lemma_fundamental_div_mod(rhs.a as int, one);
    vstd::arithmetic::div_mod::lemma_fundamental_div_mod(lhs.d as int, one);
    vstd::arithmetic::div_mod::lemma_fundamental_div_mod(rhs.d as int, one);
    vstd::arithmetic::div_mod::lemma_fundamental_div_mod(lhs.e as int, one);
    vstd::arithmetic::div_mod::lemma_fundamental_div_mod(rhs.e as int, one);
    vstd::arithmetic::div_mod::lemma_fundamental_div_mod(lhs.f as int, one);
    vstd::arithmetic::div_mod::lemma_fundamental_div_mod(rhs.f as int, one);
}

/// Under the identity transform at unit scale, a point keeps its X
/// coordinate and its Y coordinate is flipped about the output height.
pub proof fn lemma_transform_identity(p: Coord, h: u32)
    requires
        h as int * FX_ONE as int - p.y as int <= i64::MAX as int,
    ensures
        transform_v(p, ctm_identity(), DeviceScale { height: h, scale: FX_ONE }) == (Coord {
            x: p.x,
            y: (h as int * FX_ONE as int - p.y as int) as i64,
        }),
{
    lemma_fx_mul_one(p.x);
    lemma_fx_mul_one(p.y);
    let ix: i64 = mul_add3_v(FX_ONE as int, p.x as int, 0, p.y as int, 0);
    let iy: i64 = mul_add3_v(0, p.x as int, FX_ONE as int, p.y as int, 0);
    assert(ix == p.x && iy == p.y);
    lemma_fx_mul_one(ix);
    lemma_fx_mul_one(iy);
}

/// Map a user-space point through `ctm` into output pixel space.
pub fn transform_from(xy: &Coord, ctm: &CTM, scale: &DeviceScale) -> (r: Coord)
    ensures
        r == transform_v(*xy, *ctm, *scale),
{
    let dx: i64 = fx_mul(
        scale.scale,
        fx_add(fx_add(fx_mul(ctm.a, xy.x), fx_mul(ctm.c, xy.y)), ctm.e),
    );
    let dy: i64 = fx_sub(
        fx_of_u32(scale.height),
        fx_mul(scale.scale, fx_add(fx_add(fx_mul(ctm.b, xy.x), fx_mul(ctm.d, xy.y)), ctm.f)),
    );
    Coord { x: dx, y: dy }
}

} // verus!
