//! The colour model: one colour held as RGB, CMY and HSV at 16 bits per channel.
//!
//! Every channel is an integer in `0..=65535`. A channel value `c` stands for the
//! real number `c / 65535`, and a hue `h` for the fraction `h / 65535` of a full
//! turn round the colour circle. The conversions between the representations are
//! the usual real-valued transforms, evaluated exactly and truncated to the next
//! lower integer.

use vstd::prelude::*;

verus! {

/// The largest value of a channel.
pub const CHANNEL_MAX: u16 = 65535;

/// A colour as three additive channels.
#[derive(Debug, Clone, Copy, PartialEq, Eq, Structural)]
pub struct Rgb {
    pub red: u16,
    pub green: u16,
    pub blue: u16,
}

/// A colour as hue, saturation and value.
#[derive(Debug, Clone, Copy, PartialEq, Eq, Structural)]
pub struct Hsv {
    pub hue: u16,
    pub saturation: u16,
    pub value: u16,
}

/// The largest of three numbers.
pub open spec fn max3(a: int, b: int, c: int) -> int {
    if a >= b && a >= c {
        a
    } else if b >= c {
        b
    } else {
        c
    }
}

/// The smallest of three numbers.
pub open spec fn min3(a: int, b: int, c: int) -> int {
    if a <= b && a <= c {
        a
    } else if b <= c {
        b
    } else {
        c
    }
}

/// The spread of three channels: the largest minus the smallest.
pub open spec fn spread(r: int, g: int, b: int) -> int {
    max3(r, g, b) - min3(r, g, b)
}

/// The value of an RGB colour: its largest channel.
pub open spec fn value_of(r: int, g: int, b: int) -> int {
    max3(r, g, b)
}

/// The saturation of an RGB colour: the spread as a fraction of the largest
/// channel, scaled to a channel and truncated. Black has saturation 0.
pub open spec fn saturation_of(r: int, g: int, b: int) -> int {
    if max3(r, g, b) == 0 {
        0
    } else {
        spread(r, g, b) * 65535 / max3(r, g, b)
    }
}

/// The position of an RGB colour on the colour circle, in units of which
/// `6 * spread(r, g, b)` make a full turn.
///
/// Where red is the largest channel the position lies within one sixth of a turn
/// of red (before it, and so near the end of the circle, where blue exceeds
/// green); where green is, round one third of a turn; else round two thirds.
pub open spec fn hue_position(r: int, g: int, b: int) -> int {
    let d = spread(r, g, b);
    if max3(r, g, b) == r {
        if g >= b {
            g - b
        } else {
            g - b + 6 * d
        }
    } else if max3(r, g, b) == g {
        b - r + 2 * d
    } else {
        r - g + 4 * d
    }
}

/// The hue of an RGB colour, scaled to a channel and truncated. A gray has hue 0.
pub open spec fn hue_of(r: int, g: int, b: int) -> int {
    if spread(r, g, b) == 0 {
        0
    } else {
        hue_position(r, g, b) * 65535 / (6 * spread(r, g, b))
    }
}

/// The sixth of the colour circle that a hue lies in, counted from 0. Only the
/// largest hue, 65535, gives 6: it closes the circle.
pub open spec fn sector(h: int) -> int {
    6 * h / 65535
}

/// How far a hue is from the middle of the pair of sectors it lies in, with
/// 65535 for the length of one sector. It is 65535 at the primary colours red,
/// green and blue, and 0 at yellow, cyan and magenta.
pub open spec fn ramp(h: int) -> int {
    let p = (6 * h) % 131070;
    if p >= 65535 {
        p - 65535
    } else {
        65535 - p
    }
}

/// The smallest channel of the colour with saturation `s` and value `v`.
pub open spec fn low_channel(s: int, v: int) -> int {
    v * (65535 - s) / 65535
}

/// The middle channel of the colour with hue `h`, saturation `s` and value `v`.
pub open spec fn mid_channel(h: int, s: int, v: int) -> int {
    v * (4294836225 - s * ramp(h)) / 4294836225
}

/// The red channel of the colour with hue `h`, saturation `s` and value `v`.
pub open spec fn red_of(h: int, s: int, v: int) -> int {
    let k = sector(h);
    if k == 0 || k >= 5 {
        v
    } else if k == 1 || k == 4 {
        mid_channel(h, s, v)
    } else {
        low_channel(s, v)
    }
}

/// The green channel of the colour with hue `h`, saturation `s` and value `v`.
pub open spec fn green_of(h: int, s: int, v: int) -> int {
    let k = sector(h);
    if k == 1 || k == 2 {
        v
    } else if k == 0 || k == 3 {
        mid_channel(h, s, v)
    } else {
        low_channel(s, v)
    }
}

/// The blue channel of the colour with hue `h`, saturation `s` and value `v`.
pub open spec fn blue_of(h: int, s: int, v: int) -> int {
    let k = sector(h);
    if k == 3 || k == 4 {
        v
    } else if k == 2 || k >= 5 {
        mid_channel(h, s, v)
    } else {
        low_channel(s, v)
    }
}

/// Whether a number is a channel value.
pub open spec fn is_channel(c: int) -> bool {
    0 <= c <= 65535
}

/// The smallest channel lies between 0 and the value.
pub proof fn lemma_low_channel_bounds(s: int, v: int)
    requires
        is_channel(s),
        is_channel(v),
    ensures
        0 <= low_channel(s, v) <= v,
{
    assert(0 <= v * (65535 - s) <= v * 65535) by (nonlinear_arith)
        requires
            0 <= s <= 65535,
            0 <= v,
    ;
}

/// The middle channel lies between the smallest channel and the value.
pub proof fn lemma_mid_channel_bounds(h: int, s: int, v: int)
    requires
        is_channel(s),
        is_channel(v),
    ensures
        low_channel(s, v) <= mid_channel(h, s, v) <= v,
{
    let a = ramp(h);
    let m: int = 65535;
    assert(0 <= s * a <= s * m) by (nonlinear_arith)
        requires
            0 <= s,
            0 <= a <= m,
    ;
    assert(v * (m * m - s * m) <= v * (m * m - s * a) <= v * (m * m)) by (nonlinear_arith)
        requires
            0 <= v,
            0 <= s * a <= s * m,
    ;
    assert(v * (m * m - s * m) == (v * (m - s)) * m) by (nonlinear_arith);
    assert(m * m == 4294836225);
    // v * (m - s) / m == (v * (m - s) * m) / (m * m)
    vstd::arithmetic::div_mod::lemma_div_multiples_vanish_quotient(m, v * (m - s), m);
    assert(m * (v * (m - s)) == (v * (m - s)) * m) by (nonlinear_arith);
    vstd::arithmetic::div_mod::lemma_div_is_ordered(
        v * (m * m - s * m),
        v * (m * m - s * a),
        m * m,
    );
    vstd::arithmetic::div_mod::lemma_div_is_ordered(v * (m * m - s * a), v * (m * m), m * m);
    vstd::arithmetic::div_mod::lemma_div_multiples_vanish(v, m * m);
    assert(v * (m * m) == (m * m) * v) by (nonlinear_arith);
}

/// At a primary colour, where the ramp is at its maximum, the middle channel
/// falls together with the smallest.
pub proof fn lemma_mid_channel_at_primary(h: int, s: int, v: int)
    requires
        is_channel(s),
        is_channel(v),
        ramp(h) == 65535,
    ensures
        mid_channel(h, s, v) == low_channel(s, v),
{
    let m: int = 65535;
    assert(0 <= v * (m - s)) by (nonlinear_arith)
        requires
            0 <= v,
            0 <= m - s,
    ;
    assert(v * (4294836225 - s * m) == m * (v * (m - s))) by (nonlinear_arith)
        requires
            m == 65535,
    ;
    vstd::arithmetic::div_mod::lemma_div_multiples_vanish_quotient(m, v * (m - s), m);
}

/// With saturation 0 the colour is a gray: each additive channel equals the
/// value, whatever the hue.
pub proof fn lemma_zero_saturation_is_gray(h: int, v: int)
    ensures
        red_of(h, 0, v) == v,
        green_of(h, 0, v) == v,
        blue_of(h, 0, v) == v,
{
    assert(0 * ramp(h) == 0) by (nonlinear_arith);
    assert(v * 65535 == 65535 * v) by (nonlinear_arith);
    assert(v * 4294836225 == 4294836225 * v) by (nonlinear_arith);
    vstd::arithmetic::div_mod::lemma_div_multiples_vanish(v, 65535);
    vstd::arithmetic::div_mod::lemma_div_multiples_vanish(v, 4294836225);
}

/// With value 0 the colour is black: each additive channel is 0, whatever the
/// hue and the saturation.
pub proof fn lemma_zero_value_is_black(h: int, s: int)
    ensures
        red_of(h, s, 0) == 0,
        green_of(h, s, 0) == 0,
        blue_of(h, s, 0) == 0,
{
    assert(0 * (65535 - s) == 0) by (nonlinear_arith);
    assert(0 * (4294836225 - s * ramp(h)) == 0) by (nonlinear_arith);
}

/// The hue circle closes: the smallest and the largest hue give the same
/// colour, at every saturation and value. It is the red corner of the circle:
/// red carries the value, green and blue the smallest channel.
pub proof fn lemma_hue_wraps(s: int, v: int)
    requires
        is_channel(s),
        is_channel(v),
    ensures
        red_of(0, s, v) == red_of(65535, s, v) == v,
        green_of(0, s, v) == green_of(65535, s, v) == low_channel(s, v),
        blue_of(0, s, v) == blue_of(65535, s, v) == low_channel(s, v),
{
    lemma_mid_channel_at_primary(0, s, v);
    lemma_mid_channel_at_primary(65535, s, v);
}

/// Converts hue, saturation and value to the three additive channels.
pub fn hsv_to_rgb(hue: u16, saturation: u16, value: u16) -> (c: Rgb)
    ensures
        c.red == red_of(hue as int, saturation as int, value as int),
        c.green == green_of(hue as int, saturation as int, value as int),
        c.blue == blue_of(hue as int, saturation as int, value as int),
{
    let h6: u64 = 6 * (hue as u64);
    let k: u64 = h6 / 65535;
    let p: u64 = h6 % 131070;
    let a: u64 = if p >= 65535 {
        p - 65535
    } else {
        65535 - p
    };
    let s: u64 = saturation as u64;
    let v: u64 = value as u64;
    proof {
        lemma_low_channel_bounds(s as int, v as int);
        lemma_mid_channel_bounds(hue as int, s as int, v as int);
        assert(0 <= s * a <= 4294836225) by (nonlinear_arith)
            requires
                0 <= s <= 65535,
                0 <= a <= 65535,
        ;
        assert(0 <= v * (4294836225 - s * a) <= 65535 * 4294836225) by (nonlinear_arith)
            requires
                0 <= v <= 65535,
                0 <= s * a <= 4294836225,
        ;
        assert(0 <= v * (65535 - s) <= 65535 * 65535) by (nonlinear_arith)
            requires
                0 <= v <= 65535,
                0 <= s <= 65535,
        ;
    }
    let low: u16 = (v * (65535 - s) / 65535) as u16;
    let mid: u16 = (v * (4294836225 - s * a) / 4294836225) as u16;
    if k == 0 {
        Rgb { red: value, green: mid, blue: low }
    } else if k == 1 {
        Rgb { red: mid, green: value, blue: low }
    } else if k == 2 {
        Rgb { red: low, green: value, blue: mid }
    } else if k == 3 {
        Rgb { red: low, green: mid, blue: value }
    } else if k == 4 {
        Rgb { red: mid, green: low, blue: value }
    } else {
        Rgb { red: value, green: low, blue: mid }
    }
}

/// The saturation and the hue of an RGB colour are channel values.
pub proof fn lemma_hsv_of_bounds(r: int, g: int, b: int)
    requires
        is_channel(r),
        is_channel(g),
        is_channel(b),
    ensures
        is_channel(saturation_of(r, g, b)),
        0 <= hue_of(r, g, b) < 65535,
        0 <= hue_position(r, g, b),
        spread(r, g, b) > 0 ==> hue_position(r, g, b) < 6 * spread(r, g, b),
{
    let mx = max3(r, g, b);
    let d = spread(r, g, b);
    if mx > 0 {
        assert(0 <= d * 65535 <= mx * 65535) by (nonlinear_arith)
            requires
                0 <= d <= mx,
        ;
        vstd::arithmetic::div_mod::lemma_div_is_ordered(0, d * 65535, mx);
        vstd::arithmetic::div_mod::lemma_div_is_ordered(d * 65535, mx * 65535, mx);
        vstd::arithmetic::div_mod::lemma_div_multiples_vanish(65535, mx);
        assert(mx * 65535 == 65535 * mx) by (nonlinear_arith);
    }
    if d > 0 {
        let n = hue_position(r, g, b);
        assert(0 <= n < 6 * d);
        assert(0 <= n * 65535 && n * 65535 < (6 * d) * 65535) by (nonlinear_arith)
            requires
                0 <= n < 6 * d,
        ;
        vstd::arithmetic::div_mod::lemma_div_is_ordered(0, n * 65535, 6 * d);
        vstd::arithmetic::div_mod::lemma_div_by_multiple_is_strongly_ordered(
            n * 65535,
            (6 * d) * 65535,
            65535,
            6 * d,
        );
        vstd::arithmetic::div_mod::lemma_div_multiples_vanish(65535, 6 * d);
        assert((6 * d) * 65535 == 65535 * (6 * d)) by (nonlinear_arith);
    }
}

/// Converts the three additive channels to hue, saturation and value.
pub fn rgb_to_hsv(red: u16, green: u16, blue: u16) -> (c: Hsv)
    ensures
        c.hue == hue_of(red as int, green as int, blue as int),
        c.saturation == saturation_of(red as int, green as int, blue as int),
        c.value == value_of(red as int, green as int, blue as int),
{
    let max_v: u16 = if red >= green && red >= blue {
        red
    } else if green >= blue {
        green
    } else {
        blue
    };
    let min_v: u16 = if red <= green && red <= blue {
        red
    } else if green <= blue {
        green
    } else {
        blue
    };
    let delta: u16 = max_v - min_v;
    proof {
        lemma_hsv_of_bounds(red as int, green as int, blue as int);
    }
    let saturation: u16 = if max_v == 0 {
        0
    } else {
        ((delta as u64) * 65535 / (max_v as u64)) as u16
    };
    let hue: u16 = if delta == 0 {
        0
    } else {
        let d: u64 = delta as u64;
        let position: u64 = if max_v == red {
            if green >= blue {
                (green - blue) as u64
            } else {
                6 * d - ((blue - green) as u64)
            }
        } else if max_v == green {
            2 * d + (blue as u64) - (red as u64)
        } else {
            4 * d + (red as u64) - (green as u64)
        };
        assert(position == hue_position(red as int, green as int, blue as int));
        assert(position * 65535 <= 6 * 65535 * 65535) by (nonlinear_arith)
            requires
                position <= 6 * 65535,
        ;
        (position * 65535 / (6 * d)) as u16
    };
    Hsv { hue, saturation, value: max_v }
}

/// One colour, held at the same time as RGB, as CMY and as HSV.
#[derive(Debug, Clone, Copy)]
pub struct Color {
    pub red: u16,
    pub green: u16,
    pub blue: u16,
    pub cyan: u16,
    pub magenta: u16,
    pub yellow: u16,
    pub hue: u16,
    pub saturation: u16,
    pub value: u16,
}

impl Color {
    /// Cyan, magenta and yellow are what red, green and blue lack to the maximum.
    pub open spec fn complements(&self) -> bool {
        &&& self.cyan == 65535 - self.red
        &&& self.magenta == 65535 - self.green
        &&& self.yellow == 65535 - self.blue
    }

    /// Hue, saturation and value are those of the additive channels.
    pub open spec fn hsv_follows_rgb(&self) -> bool {
        &&& self.hue == hue_of(self.red as int, self.green as int, self.blue as int)
        &&& self.saturation == saturation_of(
            self.red as int,
            self.green as int,
            self.blue as int,
        )
        &&& self.value == value_of(self.red as int, self.green as int, self.blue as int)
    }

    /// The additive channels are those of hue, saturation and value.
    pub open spec fn rgb_follows_hsv(&self) -> bool {
        &&& self.red == red_of(self.hue as int, self.saturation as int, self.value as int)
        &&& self.green == green_of(self.hue as int, self.saturation as int, self.value as int)
        &&& self.blue == blue_of(self.hue as int, self.saturation as int, self.value as int)
    }

    /// The three representations agree: CMY complements RGB, and of RGB and HSV
    /// one is the truncated transform of the other.
    pub open spec fn wf(&self) -> bool {
        &&& self.complements()
        &&& (self.hsv_follows_rgb() || self.rgb_follows_hsv())
    }

    /// Black: every additive channel 0, every subtractive channel at the
    /// maximum, hue, saturation and value 0.
    pub fn new() -> (c: Self)
        ensures
            c.red == 0 && c.green == 0 && c.blue == 0,
            c.cyan == 65535 && c.magenta == 65535 && c.yellow == 65535,
            c.hue == 0 && c.saturation == 0 && c.value == 0,
            c.wf(),
    {
        Self {
            red: 0,
            green: 0,
            blue: 0,
            cyan: CHANNEL_MAX,
            magenta: CHANNEL_MAX,
            yellow: CHANNEL_MAX,
            hue: 0,
            saturation: 0,
            value: 0,
        }
    }

    /// Writes the additive channels and derives the other two representations
    /// from them.
    pub fn set_rgb(&mut self, red: u16, green: u16, blue: u16)
        ensures
            final(self).red == red,
            final(self).green == green,
            final(self).blue == blue,
            final(self).complements(),
            final(self).hsv_follows_rgb(),
            final(self).wf(),
    {
        let hsv = rgb_to_hsv(red, green, blue);
        self.red = red;
        self.green = green;
        self.blue = blue;
        self.cyan = CHANNEL_MAX - red;
        self.magenta = CHANNEL_MAX - green;
        self.yellow = CHANNEL_MAX - blue;
        self.hue = hsv.hue;
        self.saturation = hsv.saturation;
        self.value = hsv.value;
    }

    /// Writes hue, saturation and value and derives the other two
    /// representations from them.
    pub fn set_hsv(&mut self, hue: u16, saturation: u16, value: u16)
        ensures
            final(self).hue == hue,
            final(self).saturation == saturation,
            final(self).value == value,
            final(self).rgb_follows_hsv(),
            final(self).complements(),
            final(self).wf(),
    {
        let rgb = hsv_to_rgb(hue, saturation, value);
        self.hue = hue;
        self.saturation = saturation;
        self.value = value;
        self.red = rgb.red;
        self.green = rgb.green;
        self.blue = rgb.blue;
        self.cyan = CHANNEL_MAX - rgb.red;
        self.magenta = CHANNEL_MAX - rgb.green;
        self.yellow = CHANNEL_MAX - rgb.blue;
    }

    /// Writes the hue and keeps saturation and value; the additive and the
    /// subtractive channels are derived anew from all three.
    pub fn set_hue(&mut self, hue: u16)
        ensures
            final(self).hue == hue,
            final(self).saturation == old(self).saturation,
            final(self).value == old(self).value,
            final(self).rgb_follows_hsv(),
            final(self).complements(),
            final(self).wf(),
    {
        let saturation = self.saturation;
        let value = self.value;
        self.set_hsv(hue, saturation, value);
    }

    /// The additive channels as one value.
    pub fn rgb(&self) -> (c: Rgb)
        ensures
            c.red == self.red,
            c.green == self.green,
            c.blue == self.blue,
    {
        Rgb { red: self.red, green: self.green, blue: self.blue }
    }

    /// Hue, saturation and value as one value.
    pub fn hsv(&self) -> (c: Hsv)
        ensures
            c.hue == self.hue,
            c.saturation == self.saturation,
            c.value == self.value,
    {
        Hsv { hue: self.hue, saturation: self.saturation, value: self.value }
    }
}

} // verus!
