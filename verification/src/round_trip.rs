//! From RGB to HSV and back: how near the colour that comes back is to the one
//! that went in.
//!
//! Value and saturation lose nothing that matters: the largest and the
//! smallest channel come back as they were, wherever the hue stays in its
//! sector. The hue is the weak point. It has 65536 steps for six sectors, so
//! one step of hue moves the middle channel by up to six units, and truncating
//! the hue can cost up to one step.

use crate::color::{
    blue_of,
    Color,
    green_of,
    hue_of,
    hue_position,
    is_channel,
    lemma_hsv_of_bounds,
    lemma_mid_channel_bounds,
    lemma_zero_saturation_is_gray,
    low_channel,
    max3,
    mid_channel,
    ramp,
    red_of,
    saturation_of,
    sector,
    spread,
    value_of,
};
use vstd::prelude::*;

verus! {

/// How far two numbers are apart.
pub open spec fn distance(a: int, b: int) -> int {
    if a >= b {
        a - b
    } else {
        b - a
    }
}

/// A quotient times its divisor is the largest multiple of the divisor that
/// is not above the dividend.
proof fn lemma_quotient_bounds(x: int, d: int)
    requires
        d > 0,
    ensures
        d * (x / d) <= x < d * (x / d) + d,
{
    vstd::arithmetic::div_mod::lemma_fundamental_div_mod(x, d);
    vstd::arithmetic::div_mod::lemma_mod_bound(x, d);
}

/// The saturation of a colour with value `v` and spread `d`, times the value,
/// falls short of the spread at full scale by less than the value.
proof fn lemma_saturation_bounds(v: int, d: int)
    requires
        0 < v <= 65535,
        0 <= d <= v,
    ensures
        v * (d * 65535 / v) <= d * 65535 < v * (d * 65535 / v) + v,
        0 <= d * 65535 / v <= 65535,
{
    lemma_quotient_bounds(d * 65535, v);
    let s = d * 65535 / v;
    assert(0 <= s <= 65535) by (nonlinear_arith)
        requires
            0 < v,
            0 <= d <= v,
            v * s <= d * 65535 < v * s + v,
    ;
}

/// The smallest channel comes back: with the saturation of a colour of value
/// `v` and spread `d`, the smallest channel is the value less the spread.
proof fn lemma_low_channel_returns(v: int, d: int)
    requires
        0 < v <= 65535,
        0 <= d <= v,
    ensures
        low_channel(d * 65535 / v, v) == v - d,
{
    let s = d * 65535 / v;
    lemma_saturation_bounds(v, d);
    let y = v * (65535 - s);
    assert(y == v * 65535 - v * s) by (nonlinear_arith)
        requires
            y == v * (65535 - s),
    ;
    assert((v - d) * 65535 == v * 65535 - d * 65535) by (nonlinear_arith);
    assert((v - d) * 65535 <= y < (v - d) * 65535 + 65535);
}

/// How far the middle channel lies below the value, against the spread `d`
/// times the ramp `a`: the two differ by less than one unit of the channel.
proof fn lemma_mid_channel_depth(h: int, v: int, d: int)
    requires
        0 < v <= 65535,
        0 <= d <= v,
    ensures
        ({
            let c = v - mid_channel(h, d * 65535 / v, v);
            let q = d * ramp(h);
            &&& q - 65535 <= 65535 * c < q + 65535
            &&& 0 <= c <= d
        }),
{
    let m: int = 65535;
    let s = d * 65535 / v;
    let a = ramp(h);
    let mid = mid_channel(h, s, v);
    let c = v - mid;
    let q = d * a;
    lemma_saturation_bounds(v, d);
    lemma_low_channel_returns(v, d);
    lemma_mid_channel_bounds(h, s, v);
    let vs = v * s;
    let x = vs * a;
    let n = v * (4294836225 - s * a);
    assert(n == v * 4294836225 - x) by (nonlinear_arith)
        requires
            n == v * (4294836225 - s * a),
            x == (v * s) * a,
    ;
    lemma_quotient_bounds(n, 4294836225);
    assert(4294836225 * mid <= n < 4294836225 * mid + 4294836225);
    // 4294836225 * (c - 1) < x <= 4294836225 * c
    assert(x <= m * q) by (nonlinear_arith)
        requires
            x == vs * a,
            q == d * a,
            vs <= d * m,
            0 <= a,
    ;
    assert(x > m * q - m * m) by (nonlinear_arith)
        requires
            x == vs * a,
            q == d * a,
            d * m < vs + v,
            0 <= a <= m,
            0 < v <= m,
            m == 65535,
    ;
    assert(m * m == 4294836225);
    assert(m * (m * c) == 4294836225 * c) by (nonlinear_arith)
        requires
            m == 65535,
    ;
    assert(m * (m * c) > m * q - m * m);
    assert(m * (m * c) < m * q + m * m);
    assert(q - m < m * c) by (nonlinear_arith)
        requires
            m * (m * c) > m * q - m * m,
            m == 65535,
    ;
    assert(m * c < q + m) by (nonlinear_arith)
        requires
            m * (m * c) < m * q + m * m,
            m == 65535,
    ;
}

/// The hue of a colour with spread `d` at the position `n` of the circle,
/// times the spread, falls short of the position at full scale by less than
/// the spread.
proof fn lemma_hue_bounds(n: int, d: int)
    requires
        d > 0,
    ensures
        6 * (d * (n * 65535 / (6 * d))) <= n * 65535 < 6 * (d * (n * 65535 / (6 * d))) + 6 * d,
{
    let h = n * 65535 / (6 * d);
    lemma_quotient_bounds(n * 65535, 6 * d);
    assert((6 * d) * h == 6 * (d * h)) by (nonlinear_arith);
}

/// Within one sector the round trip keeps every channel within six units.
///
/// The facts about products are handed in as numbers of their own: `p` for
/// the spread times the hue, `q` for the spread times the ramp, `kd` for the
/// spread times the sector, and `c` for how far the middle channel that comes
/// back lies below the value.
proof fn lemma_round_trip_in_sector(
    r: int,
    g: int,
    b: int,
    k: int,
    kd: int,
    p: int,
    q: int,
    c: int,
)
    requires
        is_channel(r),
        is_channel(g),
        is_channel(b),
        spread(r, g, b) > 0,
        0 <= k <= 5,
        k == 0 ==> kd == 0,
        k == 1 ==> kd == spread(r, g, b),
        k == 2 ==> kd == 2 * spread(r, g, b),
        k == 3 ==> kd == 3 * spread(r, g, b),
        k == 4 ==> kd == 4 * spread(r, g, b),
        k == 5 ==> kd == 5 * spread(r, g, b),
        6 * p <= hue_position(r, g, b) * 65535 < 6 * p + 6 * spread(r, g, b),
        65535 * kd <= 6 * p < 65535 * kd + 65535 * spread(r, g, b),
        k == 0 || k == 2 || k == 4 ==> q == 65535 * kd + 65535 * spread(r, g, b) - 6 * p,
        k == 1 || k == 3 || k == 5 ==> q == 6 * p - 65535 * kd,
        q - 65535 <= 65535 * c < q + 65535,
        0 <= c <= spread(r, g, b),
    ensures
        ({
            let v = max3(r, g, b);
            let top = v;
            let mid = v - c;
            let low = v - spread(r, g, b);
            let red = if k == 0 || k == 5 {
                top
            } else if k == 1 || k == 4 {
                mid
            } else {
                low
            };
            let green = if k == 1 || k == 2 {
                top
            } else if k == 0 || k == 3 {
                mid
            } else {
                low
            };
            let blue = if k == 3 || k == 4 {
                top
            } else if k == 2 || k == 5 {
                mid
            } else {
                low
            };
            &&& distance(red, r) <= 6
            &&& distance(green, g) <= 6
            &&& distance(blue, b) <= 6
        }),
{
}

/// A colour that goes from RGB to HSV and back comes back within six units in
/// every channel. A gray comes back as it was.
pub proof fn lemma_round_trip(r: int, g: int, b: int)
    requires
        is_channel(r),
        is_channel(g),
        is_channel(b),
    ensures
        ({
            let h = hue_of(r, g, b);
            let s = saturation_of(r, g, b);
            let v = value_of(r, g, b);
            &&& distance(red_of(h, s, v), r) <= 6
            &&& distance(green_of(h, s, v), g) <= 6
            &&& distance(blue_of(h, s, v), b) <= 6
            &&& spread(r, g, b) == 0 ==> red_of(h, s, v) == r && green_of(h, s, v) == g && blue_of(
                h,
                s,
                v,
            ) == b
        }),
{
    let h = hue_of(r, g, b);
    let s = saturation_of(r, g, b);
    let v = value_of(r, g, b);
    let d = spread(r, g, b);
    lemma_hsv_of_bounds(r, g, b);
    if d == 0 {
        assert(s == 0) by {
            if v > 0 {
                assert(0int * 65535 / v == 0) by (nonlinear_arith)
                    requires
                        v > 0,
                ;
            }
        }
        lemma_zero_saturation_is_gray(h, v);
    } else {
        let n = hue_position(r, g, b);
        let k = sector(h);
        let a = ramp(h);
        let p = d * h;
        let q = d * a;
        let kd = k * d;
        let c = v - mid_channel(h, s, v);
        lemma_hue_bounds(n, d);
        lemma_low_channel_returns(v, d);
        lemma_mid_channel_depth(h, v, d);
        assert(0 <= k <= 5);
        assert(65535 * k <= 6 * h < 65535 * k + 65535);
        assert(65535 * kd <= 6 * p < 65535 * kd + 65535 * d) by (nonlinear_arith)
            requires
                65535 * k <= 6 * h < 65535 * k + 65535,
                kd == k * d,
                p == d * h,
                d > 0,
        ;
        if k == 0 || k == 2 || k == 4 {
            assert(a == 65535 * k + 65535 - 6 * h);
            assert(q == 65535 * kd + 65535 * d - 6 * p) by (nonlinear_arith)
                requires
                    a == 65535 * k + 65535 - 6 * h,
                    q == d * a,
                    kd == k * d,
                    p == d * h,
            ;
        } else {
            assert(a == 6 * h - 65535 * k);
            assert(q == 6 * p - 65535 * kd) by (nonlinear_arith)
                requires
                    a == 6 * h - 65535 * k,
                    q == d * a,
                    kd == k * d,
                    p == d * h,
            ;
        }
        assert(k == 0 ==> kd == 0) by (nonlinear_arith)
            requires
                kd == k * d,
        ;
        assert(k == 1 ==> kd == d) by (nonlinear_arith)
            requires
                kd == k * d,
        ;
        assert(k == 2 ==> kd == 2 * d) by (nonlinear_arith)
            requires
                kd == k * d,
        ;
        assert(k == 3 ==> kd == 3 * d) by (nonlinear_arith)
            requires
                kd == k * d,
        ;
        assert(k == 4 ==> kd == 4 * d) by (nonlinear_arith)
            requires
                kd == k * d,
        ;
        assert(k == 5 ==> kd == 5 * d) by (nonlinear_arith)
            requires
                kd == k * d,
        ;
        lemma_round_trip_in_sector(r, g, b, k, kd, p, q, c);
    }
}

/// Writing the additive channels of a colour, and then its hue, saturation
/// and value as they were derived, brings every additive and every
/// subtractive channel back within six units.
///
/// `from` is the colour after the first writing and `back` the colour after
/// the second.
pub proof fn lemma_colors_round_trip(from: Color, back: Color)
    requires
        from.complements(),
        from.hsv_follows_rgb(),
        back.complements(),
        back.rgb_follows_hsv(),
        back.hue == from.hue,
        back.saturation == from.saturation,
        back.value == from.value,
    ensures
        distance(back.red as int, from.red as int) <= 6,
        distance(back.green as int, from.green as int) <= 6,
        distance(back.blue as int, from.blue as int) <= 6,
        distance(back.cyan as int, from.cyan as int) <= 6,
        distance(back.magenta as int, from.magenta as int) <= 6,
        distance(back.yellow as int, from.yellow as int) <= 6,
{
    lemma_round_trip(from.red as int, from.green as int, from.blue as int);
}

} // verus!
