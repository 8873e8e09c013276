//! Filling the triangle: every pixel whose centre the triangle covers gets the
//! blend of the three corner colours, weighted by how near the centre lies to
//! each corner.
//!
//! The weight of a corner at a point is the share of the triangle's area that
//! lies opposite the corner, as seen from the point, over the area of the whole
//! triangle. Shares and area are kept as exact integers, twice the signed
//! areas, so that no weight is ever rounded.

use crate::color::Rgb;
use crate::geometry::Triangle;
use vstd::prelude::*;

verus! {

/// The colours at the three corners of the triangle.
#[derive(Debug, Clone, Copy, PartialEq, Eq, Structural)]
pub struct Corners {
    pub hue: Rgb,
    pub white: Rgb,
    pub black: Rgb,
}

/// Twice the signed area of the triangle. It is 0 exactly when the three
/// corners lie on one line.
pub open spec fn area2(t: Triangle) -> int {
    (t.white.y - t.black.y) * (t.hue.x - t.black.x) + (t.black.x - t.white.x) * (t.hue.y
        - t.black.y)
}

/// The share of the hue corner at the point `(x, y)`: twice the signed area
/// of the triangle with the point in place of the hue corner.
pub open spec fn hue_share(t: Triangle, x: int, y: int) -> int {
    (t.white.y - t.black.y) * (x - t.black.x) + (t.black.x - t.white.x) * (y - t.black.y)
}

/// The share of the white corner at the point `(x, y)`.
pub open spec fn white_share(t: Triangle, x: int, y: int) -> int {
    (t.black.y - t.hue.y) * (x - t.black.x) + (t.hue.x - t.black.x) * (y - t.black.y)
}

/// The share of the black corner at the point `(x, y)`: what the other two
/// leave of the whole.
pub open spec fn black_share(t: Triangle, x: int, y: int) -> int {
    area2(t) - hue_share(t, x, y) - white_share(t, x, y)
}

/// Whether the weight `share / area` is at least minus one millionth.
pub open spec fn admits(share: int, area: int) -> bool {
    if area > 0 {
        share * 1000000 >= -area
    } else {
        share * 1000000 <= -area
    }
}

/// Whether the triangle covers the point `(x, y)`: it has an area, and none of
/// the three weights at the point is below minus one millionth. The slack
/// takes in the points on the boundary.
pub open spec fn covers(t: Triangle, x: int, y: int) -> bool {
    &&& area2(t) != 0
    &&& admits(hue_share(t, x, y), area2(t))
    &&& admits(white_share(t, x, y), area2(t))
    &&& admits(black_share(t, x, y), area2(t))
}

/// One channel of the blend, as an 8-bit level: the corner channels `ch`, `cw`
/// and `cb`, each weighted by its share of `area`, summed, limited to the
/// range from nothing to full, scaled to 255 and truncated.
pub open spec fn blend(sh: int, sw: int, sb: int, area: int, ch: int, cw: int, cb: int) -> int {
    let sum = sh * ch + sw * cw + sb * cb;
    let level = if area > 0 {
        (255 * sum) / (65535 * area)
    } else {
        (255 * (-sum)) / (65535 * (-area))
    };
    if level < 0 {
        0
    } else if level > 255 {
        255
    } else {
        level
    }
}

/// A pixel word: full opacity in the top byte, then red, green and blue.
pub open spec fn argb(r: int, g: int, b: int) -> int {
    4278190080 + r * 65536 + g * 256 + b
}

/// The 8-bit level of a 16-bit channel, truncated.
pub open spec fn level8(c: int) -> int {
    255 * c / 65535
}

/// The 8-bit level of a channel is at most 255, and is 255 for a full channel.
pub proof fn lemma_level8_bounds(c: int)
    requires
        0 <= c <= 65535,
    ensures
        0 <= level8(c) <= 255,
        level8(65535) == 255,
        level8(0) == 0,
{
    assert(0 <= (255 * c) / 65535 <= 255) by (nonlinear_arith)
        requires
            0 <= c <= 65535,
    ;
}

/// The pixel word of the blend at the point `(x, y)`.
pub open spec fn shade_at(t: Triangle, c: Corners, x: int, y: int) -> int {
    let sh = hue_share(t, x, y);
    let sw = white_share(t, x, y);
    let sb = black_share(t, x, y);
    let a = area2(t);
    argb(
        blend(sh, sw, sb, a, c.hue.red as int, c.white.red as int, c.black.red as int),
        blend(sh, sw, sb, a, c.hue.green as int, c.white.green as int, c.black.green as int),
        blend(sh, sw, sb, a, c.hue.blue as int, c.white.blue as int, c.black.blue as int),
    )
}

/// A blended channel is an 8-bit level, and so a pixel word fits 32 bits.
pub proof fn lemma_shade_bounds(t: Triangle, c: Corners, x: int, y: int)
    ensures
        4278190080 <= shade_at(t, c, x, y) <= 4294967295,
{
}

/// The sum of two products of differences of coordinates.
spec fn cross(a: int, b: int, c: int, d: int) -> int {
    a * b + c * d
}

fn cross_of(a: i64, b: i64, c: i64, d: i64) -> (r: i128)
    requires
        -4294967296 <= a <= 4294967296,
        -4294967296 <= b <= 4294967296,
        -4294967296 <= c <= 4294967296,
        -4294967296 <= d <= 4294967296,
    ensures
        r == cross(a as int, b as int, c as int, d as int),
        -36893488147419103232 <= r <= 36893488147419103232,
{
    assert(-18446744073709551616 <= a * b <= 18446744073709551616) by (nonlinear_arith)
        requires
            -4294967296 <= a <= 4294967296,
            -4294967296 <= b <= 4294967296,
    ;
    assert(-18446744073709551616 <= c * d <= 18446744073709551616) by (nonlinear_arith)
        requires
            -4294967296 <= c <= 4294967296,
            -4294967296 <= d <= 4294967296,
    ;
    (a as i128) * (b as i128) + (c as i128) * (d as i128)
}

fn admits_of(share: i128, area: i128) -> (r: bool)
    requires
        -110680464442257309696 <= share <= 110680464442257309696,
        -36893488147419103232 <= area <= 36893488147419103232,
    ensures
        r == admits(share as int, area as int),
{
    if area > 0 {
        share * 1000000 >= -area
    } else {
        share * 1000000 <= -area
    }
}

fn blend_of(sh: i128, sw: i128, sb: i128, area: i128, ch: u16, cw: u16, cb: u16) -> (r: u8)
    requires
        area != 0,
        -110680464442257309696 <= sh <= 110680464442257309696,
        -110680464442257309696 <= sw <= 110680464442257309696,
        -110680464442257309696 <= sb <= 110680464442257309696,
        -36893488147419103232 <= area <= 36893488147419103232,
    ensures
        r == blend(sh as int, sw as int, sb as int, area as int, ch as int, cw as int, cb as int),
{
    let bound: i128 = 110680464442257309696;
    assert(-bound * 65535 <= sh * ch <= bound * 65535) by (nonlinear_arith)
        requires
            -bound <= sh <= bound,
            0 <= ch <= 65535,
            bound >= 0,
    ;
    assert(-bound * 65535 <= sw * cw <= bound * 65535) by (nonlinear_arith)
        requires
            -bound <= sw <= bound,
            0 <= cw <= 65535,
            bound >= 0,
    ;
    assert(-bound * 65535 <= sb * cb <= bound * 65535) by (nonlinear_arith)
        requires
            -bound <= sb <= bound,
            0 <= cb <= 65535,
            bound >= 0,
    ;
    let sum: i128 = sh * (ch as i128) + sw * (cw as i128) + sb * (cb as i128);
    let top: i128 = if area > 0 {
        255 * sum
    } else {
        255 * (-sum)
    };
    let bottom: i128 = if area > 0 {
        65535 * area
    } else {
        65535 * (-area)
    };
    if top <= 0 {
        assert(top / bottom <= 0) by (nonlinear_arith)
            requires
                top <= 0,
                bottom > 0,
        ;
        0
    } else {
        assert(top / bottom >= 0) by (nonlinear_arith)
            requires
                top > 0,
                bottom > 0,
        ;
        let level: i128 = top / bottom;
        if level > 255 {
            255
        } else {
            level as u8
        }
    }
}

/// Whether the triangle has no area: its three corners lie on one line.
pub fn is_degenerate(t: &Triangle) -> (r: bool)
    ensures
        r == (area2(*t) == 0),
{
    let wy_by: i64 = (t.white.y as i64) - (t.black.y as i64);
    let bx_wx: i64 = (t.black.x as i64) - (t.white.x as i64);
    let hx_bx: i64 = (t.hue.x as i64) - (t.black.x as i64);
    let hy_by: i64 = (t.hue.y as i64) - (t.black.y as i64);
    cross_of(wy_by, hx_bx, bx_wx, hy_by) == 0
}

/// Computes the pixel word for the point `(x, y)`: the blend of the corner
/// colours where the triangle covers the point, and nothing where it does not
/// or has no area.
pub fn shade(t: &Triangle, c: &Corners, x: i32, y: i32) -> (r: Option<u32>)
    ensures
        r == (if covers(*t, x as int, y as int) {
            Some(shade_at(*t, *c, x as int, y as int) as u32)
        } else {
            None
        }),
{
    let wy_by: i64 = (t.white.y as i64) - (t.black.y as i64);
    let bx_wx: i64 = (t.black.x as i64) - (t.white.x as i64);
    let by_hy: i64 = (t.black.y as i64) - (t.hue.y as i64);
    let hx_bx: i64 = (t.hue.x as i64) - (t.black.x as i64);
    let hy_by: i64 = (t.hue.y as i64) - (t.black.y as i64);
    let dx: i64 = (x as i64) - (t.black.x as i64);
    let dy: i64 = (y as i64) - (t.black.y as i64);
    let area: i128 = cross_of(wy_by, hx_bx, bx_wx, hy_by);
    if area == 0 {
        return None;
    }
    let sh: i128 = cross_of(wy_by, dx, bx_wx, dy);
    let sw: i128 = cross_of(by_hy, dx, hx_bx, dy);
    let sb: i128 = area - sh - sw;
    if !(admits_of(sh, area) && admits_of(sw, area) && admits_of(sb, area)) {
        return None;
    }
    let r8: u8 = blend_of(sh, sw, sb, area, c.hue.red, c.white.red, c.black.red);
    let g8: u8 = blend_of(sh, sw, sb, area, c.hue.green, c.white.green, c.black.green);
    let b8: u8 = blend_of(sh, sw, sb, area, c.hue.blue, c.white.blue, c.black.blue);
    Some(4278190080u32 + (r8 as u32) * 65536 + (g8 as u32) * 256 + (b8 as u32))
}

/// The coordinate of the centre of the pixel with index `i`.
pub open spec fn center_of(i: int) -> int {
    256 * i + 128
}

/// The index of the first pixel column (or row) of the box round three
/// coordinates on a canvas of `n` columns (or rows): the pixel that holds the
/// smallest of them, or the nearest one that the canvas has.
pub open spec fn box_first(a: int, b: int, c: int, n: int) -> int {
    let low = crate::color::min3(a, b, c) / 256;
    if low < 0 {
        0
    } else if low > n - 1 {
        n - 1
    } else {
        low
    }
}

/// The index of the last pixel column (or row) of the box round three
/// coordinates on a canvas of `n` columns (or rows): the pixel that begins at
/// or after the largest of them, or the nearest one that the canvas has.
pub open spec fn box_last(a: int, b: int, c: int, n: int) -> int {
    let high = (crate::color::max3(a, b, c) + 255) / 256;
    if high < 0 {
        0
    } else if high > n - 1 {
        n - 1
    } else {
        high
    }
}

/// Whether the pixel `(x, y)` lies in the box round the triangle on a canvas
/// of `width` by `height` pixels.
pub open spec fn in_box(t: Triangle, width: int, height: int, x: int, y: int) -> bool {
    &&& box_first(t.hue.x as int, t.white.x as int, t.black.x as int, width) <= x
    &&& x <= box_last(t.hue.x as int, t.white.x as int, t.black.x as int, width)
    &&& box_first(t.hue.y as int, t.white.y as int, t.black.y as int, height) <= y
    &&& y <= box_last(t.hue.y as int, t.white.y as int, t.black.y as int, height)
}

/// Whether filling the triangle writes the pixel `(x, y)`: the pixel lies in
/// the box round the triangle, and the triangle covers its centre.
pub open spec fn paints(t: Triangle, width: int, height: int, x: int, y: int) -> bool {
    in_box(t, width, height, x, y) && covers(t, center_of(x), center_of(y))
}

/// What the pixel `(x, y)` holds after the triangle was filled, if it held
/// `before`.
pub open spec fn painted(
    before: u32,
    t: Triangle,
    c: Corners,
    width: int,
    height: int,
    x: int,
    y: int,
) -> u32 {
    if paints(t, width, height, x, y) {
        shade_at(t, c, center_of(x), center_of(y)) as u32
    } else {
        before
    }
}

/// The place of the pixel `(x, y)` in the rows of a canvas `width` wide, laid
/// end to end.
pub open spec fn place(width: int, x: int, y: int) -> int {
    y * width + x
}

/// Every pixel of the canvas has a place of its own.
pub proof fn lemma_place(width: int, height: int, x: int, y: int)
    requires
        0 <= x < width,
        0 <= y < height,
    ensures
        0 <= place(width, x, y) < width * height,
        forall|x2: int, y2: int|
            0 <= x2 < width && 0 <= y2 && #[trigger] place(width, x2, y2) == place(width, x, y)
                ==> x2 == x && y2 == y,
{
    assert(0 <= y * width && y * width + width <= height * width && height * width == width
        * height) by (nonlinear_arith)
        requires
            0 <= y < height,
            0 < width,
    ;
    assert forall|x2: int, y2: int|
        0 <= x2 < width && 0 <= y2 && #[trigger] place(width, x2, y2) == place(
            width,
            x,
            y,
        ) implies x2 == x && y2 == y by {
        assert(y2 == y) by (nonlinear_arith)
            requires
                0 <= x < width,
                0 <= x2 < width,
                0 <= y,
                0 <= y2,
                y2 * width + x2 == y * width + x,
        ;
    }
}

fn box_first_of(a: i32, b: i32, c: i32, n: u16) -> (r: u16)
    requires
        n > 0,
    ensures
        r == box_first(a as int, b as int, c as int, n as int),
        r < n,
{
    let least: i32 = if a <= b && a <= c {
        a
    } else if b <= c {
        b
    } else {
        c
    };
    if least < 0 {
        0
    } else {
        let low: i32 = least / 256;
        if low > (n as i32) - 1 {
            n - 1
        } else {
            low as u16
        }
    }
}

fn box_last_of(a: i32, b: i32, c: i32, n: u16) -> (r: u16)
    requires
        n > 0,
    ensures
        r == box_last(a as int, b as int, c as int, n as int),
        r < n,
{
    let most: i32 = if a >= b && a >= c {
        a
    } else if b >= c {
        b
    } else {
        c
    };
    if most <= -256 {
        0
    } else {
        let high: i64 = ((most as i64) + 255) / 256;
        if high > (n as i64) - 1 {
            n - 1
        } else {
            high as u16
        }
    }
}

/// A canvas of pixel words, row after row from the top, each row from the
/// left.
#[derive(Debug)]
pub struct Canvas {
    width: u16,
    height: u16,
    pixels: Vec<u32>,
}

impl View for Canvas {
    type V = Seq<u32>;

    /// The pixel words, row after row.
    closed spec fn view(&self) -> Seq<u32> {
        self.pixels@
    }
}

impl Canvas {
    #[verifier::type_invariant]
    spec fn filled(self) -> bool {
        self.pixels@.len() == self.width * self.height
    }

    /// The number of pixels in a row.
    pub closed spec fn spec_width(&self) -> int {
        self.width as int
    }

    /// The number of rows.
    pub closed spec fn spec_height(&self) -> int {
        self.height as int
    }

    /// The word of the pixel `(x, y)`.
    pub open spec fn pixel(&self, x: int, y: int) -> u32 {
        self@[place(self.spec_width(), x, y)]
    }

    /// A canvas of `width` by `height` pixels, each of them clear: the word 0,
    /// which has no opacity.
    pub fn new(width: u16, height: u16) -> (c: Self)
        ensures
            c.spec_width() == width,
            c.spec_height() == height,
            c@.len() == width * height,
            forall|i: int| 0 <= i < c@.len() ==> c@[i] == 0,
    {
        assert(width * height <= 65535 * 65535) by (nonlinear_arith)
            requires
                0 <= width <= 65535,
                0 <= height <= 65535,
        ;
        let total: usize = (width as usize) * (height as usize);
        let mut pixels: Vec<u32> = Vec::new();
        let mut i: usize = 0;
        while i < total
            invariant
                i <= total,
                pixels@.len() == i,
                forall|j: int| 0 <= j < i ==> pixels@[j] == 0,
            decreases total - i,
        {
            pixels.push(0);
            i += 1;
        }
        Canvas { width, height, pixels }
    }

    /// The number of pixels in a row.
    pub fn width(&self) -> (w: u16)
        ensures
            w == self.spec_width(),
    {
        self.width
    }

    /// The number of rows.
    pub fn height(&self) -> (h: u16)
        ensures
            h == self.spec_height(),
    {
        self.height
    }

    /// The pixel words, row after row; there are as many as the canvas has
    /// pixels.
    pub fn pixels(&self) -> (p: &Vec<u32>)
        ensures
            p@ == self@,
            p@.len() == self.spec_width() * self.spec_height(),
    {
        proof {
            use_type_invariant(self);
        }
        &self.pixels
    }

    /// The word of the pixel `(x, y)`, if the canvas has such a pixel.
    pub fn get(&self, x: u16, y: u16) -> (r: Option<u32>)
        ensures
            r == (if x < self.spec_width() && y < self.spec_height() {
                Some(self.pixel(x as int, y as int))
            } else {
                None
            }),
    {
        proof {
            use_type_invariant(self);
        }
        if x < self.width && y < self.height {
            proof {
                lemma_place(self.width as int, self.height as int, x as int, y as int);
            }
            assert(y * self.width <= 65535 * 65535) by (nonlinear_arith)
                requires
                    0 <= y <= 65535,
                    0 <= self.width <= 65535,
            ;
            let i: usize = (y as usize) * (self.width as usize) + (x as usize);
            Some(self.pixels[i])
        } else {
            None
        }
    }

    /// Fills the triangle: each pixel in the box round the triangle whose
    /// centre the triangle covers gets the blend of the corner colours at its
    /// centre, and every other pixel keeps its word. A triangle without area
    /// leaves the canvas as it was.
    pub fn fill_triangle(&mut self, t: &Triangle, c: &Corners)
        ensures
            final(self).spec_width() == old(self).spec_width(),
            final(self).spec_height() == old(self).spec_height(),
            final(self)@.len() == old(self)@.len(),
            forall|x: int, y: int|
                0 <= x < old(self).spec_width() && 0 <= y < old(self).spec_height()
                    ==> #[trigger] final(self).pixel(x, y) == painted(
                    old(self).pixel(x, y),
                    *t,
                    *c,
                    old(self).spec_width(),
                    old(self).spec_height(),
                    x,
                    y,
                ),
            area2(*t) == 0 ==> final(self)@ == old(self)@,
    {
        proof {
            use_type_invariant(&*self);
        }
        let w: u16 = self.width;
        let h: u16 = self.height;
        if w == 0 || h == 0 {
            return ;
        }
        if is_degenerate(t) {
            return ;
        }
        let x_first: u16 = box_first_of(t.hue.x, t.white.x, t.black.x, w);
        let x_last: u16 = box_last_of(t.hue.x, t.white.x, t.black.x, w);
        let y_first: u16 = box_first_of(t.hue.y, t.white.y, t.black.y, h);
        let y_last: u16 = box_last_of(t.hue.y, t.white.y, t.black.y, h);
        let ghost before: Seq<u32> = self.pixels@;
        assert(x_first <= x_last && y_first <= y_last);
        let mut py: u32 = y_first as u32;
        while py <= y_last as u32
            invariant
                self.width == w,
                self.height == h,
                w > 0,
                h > 0,
                self.pixels@.len() == w * h,
                before.len() == w * h,
                x_first == box_first(t.hue.x as int, t.white.x as int, t.black.x as int, w as int),
                x_last == box_last(t.hue.x as int, t.white.x as int, t.black.x as int, w as int),
                y_first == box_first(t.hue.y as int, t.white.y as int, t.black.y as int, h as int),
                y_last == box_last(t.hue.y as int, t.white.y as int, t.black.y as int, h as int),
                x_last < w,
                y_last < h,
                y_first <= py <= y_last + 1,
                forall|x: int, y: int|
                    0 <= x < w && 0 <= y < h ==> self.pixels@[#[trigger] place(w as int, x, y)]
                        == (if y < py {
                        painted(before[place(w as int, x, y)], *t, *c, w as int, h as int, x, y)
                    } else {
                        before[place(w as int, x, y)]
                    }),
            decreases y_last + 1 - py,
        {
            let mut px: u32 = x_first as u32;
            while px <= x_last as u32
                invariant
                    self.width == w,
                    self.height == h,
                    w > 0,
                    h > 0,
                    self.pixels@.len() == w * h,
                    before.len() == w * h,
                    x_first == box_first(
                        t.hue.x as int,
                        t.white.x as int,
                        t.black.x as int,
                        w as int,
                    ),
                    x_last == box_last(
                        t.hue.x as int,
                        t.white.x as int,
                        t.black.x as int,
                        w as int,
                    ),
                    y_first == box_first(
                        t.hue.y as int,
                        t.white.y as int,
                        t.black.y as int,
                        h as int,
                    ),
                    y_last == box_last(
                        t.hue.y as int,
                        t.white.y as int,
                        t.black.y as int,
                        h as int,
                    ),
                    x_last < w,
                    y_last < h,
                    y_first <= py <= y_last,
                    x_first <= px <= x_last + 1,
                    forall|x: int, y: int|
                        0 <= x < w && 0 <= y < h ==> self.pixels@[#[trigger] place(w as int, x, y)]
                            == (if y < py || (y == py && x < px) {
                            painted(
                                before[place(w as int, x, y)],
                                *t,
                                *c,
                                w as int,
                                h as int,
                                x,
                                y,
                            )
                        } else {
                            before[place(w as int, x, y)]
                        }),
                decreases x_last + 1 - px,
            {
                let cx: i32 = 256 * (px as i32) + 128;
                let cy: i32 = 256 * (py as i32) + 128;
                proof {
                    lemma_place(w as int, h as int, px as int, py as int);
                    lemma_shade_bounds(*t, *c, cx as int, cy as int);
                }
                assert(py * w <= 65535 * 65535) by (nonlinear_arith)
                    requires
                        0 <= py <= 65535,
                        0 <= w <= 65535,
                ;
                match shade(t, c, cx, cy) {
                    Some(word) => {
                        let i: usize = (py as usize) * (w as usize) + (px as usize);
                        assert(i == place(w as int, px as int, py as int));
                        self.pixels[i] = word;
                    },
                    None => {},
                }
                proof {
                    assert forall|x: int, y: int| 0 <= x < w && 0 <= y < h implies self.pixels@[
                    #[trigger] place(w as int, x, y)] == (if y < py || (y == py && x < px + 1) {
                        painted(before[place(w as int, x, y)], *t, *c, w as int, h as int, x, y)
                    } else {
                        before[place(w as int, x, y)]
                    }) by {
                        lemma_place(w as int, h as int, x, y);
                        if x != px || y != py {
                            assert(place(w as int, x, y) != place(w as int, px as int, py as int));
                        }
                    }
                }
                px += 1;
            }
            py += 1;
        }
    }
}

/// At a corner of the triangle that corner has the whole area for its share,
/// and the other two have none.
pub proof fn lemma_corner_shares(t: Triangle)
    ensures
        hue_share(t, t.hue.x as int, t.hue.y as int) == area2(t),
        white_share(t, t.hue.x as int, t.hue.y as int) == 0,
        black_share(t, t.hue.x as int, t.hue.y as int) == 0,
        hue_share(t, t.white.x as int, t.white.y as int) == 0,
        white_share(t, t.white.x as int, t.white.y as int) == area2(t),
        black_share(t, t.white.x as int, t.white.y as int) == 0,
        hue_share(t, t.black.x as int, t.black.y as int) == 0,
        white_share(t, t.black.x as int, t.black.y as int) == 0,
        black_share(t, t.black.x as int, t.black.y as int) == area2(t),
        area2(t) != 0 ==> covers(t, t.hue.x as int, t.hue.y as int),
        area2(t) != 0 ==> covers(t, t.white.x as int, t.white.y as int),
        area2(t) != 0 ==> covers(t, t.black.x as int, t.black.y as int),
{
    let hx = t.hue.x as int;
    let hy = t.hue.y as int;
    let wx = t.white.x as int;
    let wy = t.white.y as int;
    let bx = t.black.x as int;
    let by = t.black.y as int;
    assert((by - hy) * (hx - bx) + (hx - bx) * (hy - by) == 0) by (nonlinear_arith);
    assert((wy - by) * (wx - bx) + (bx - wx) * (wy - by) == 0) by (nonlinear_arith);
    assert((by - hy) * (wx - bx) + (hx - bx) * (wy - by) == (wy - by) * (hx - bx) + (bx - wx) * (
        hy - by)) by (nonlinear_arith);
    assert((wy - by) * (bx - bx) + (bx - wx) * (by - by) == 0) by (nonlinear_arith);
    assert((by - hy) * (bx - bx) + (hx - bx) * (by - by) == 0) by (nonlinear_arith);
}

/// The average of three channels as an 8-bit level, truncated.
pub open spec fn average8(a: int, b: int, c: int) -> int {
    255 * (a + b + c) / 196605
}

/// Where one factor is common to all three shares and to the area, the blend
/// does not depend on it.
proof fn lemma_blend_common_factor(
    f: int,
    ph: int,
    pw: int,
    pb: int,
    pa: int,
    ch: int,
    cw: int,
    cb: int,
)
    requires
        f != 0,
        pa > 0,
        0 <= ph && 0 <= pw && 0 <= pb,
        0 <= ch && 0 <= cw && 0 <= cb,
    ensures
        blend(f * ph, f * pw, f * pb, f * pa, ch, cw, cb) == blend(ph, pw, pb, pa, ch, cw, cb),
{
    let part = ph * ch + pw * cw + pb * cb;
    let sum = (f * ph) * ch + (f * pw) * cw + (f * pb) * cb;
    assert(sum == f * part) by {
        vstd::arithmetic::mul::lemma_mul_is_associative(f, ph, ch);
        vstd::arithmetic::mul::lemma_mul_is_associative(f, pw, cw);
        vstd::arithmetic::mul::lemma_mul_is_associative(f, pb, cb);
        vstd::arithmetic::mul::lemma_mul_is_distributive_add(f, ph * ch, pw * cw);
        vstd::arithmetic::mul::lemma_mul_is_distributive_add(f, ph * ch + pw * cw, pb * cb);
    }
    assert(0 <= part) by {
        vstd::arithmetic::mul::lemma_mul_nonnegative(ph, ch);
        vstd::arithmetic::mul::lemma_mul_nonnegative(pw, cw);
        vstd::arithmetic::mul::lemma_mul_nonnegative(pb, cb);
    }
    let top = 255 * part;
    let bottom = 65535 * pa;
    if f > 0 {
        assert(f * pa > 0) by (nonlinear_arith)
            requires
                f > 0,
                pa > 0,
        ;
        assert(255 * (f * part) == f * top) by (nonlinear_arith)
            requires
                top == 255 * part,
        ;
        assert(65535 * (f * pa) == f * bottom) by (nonlinear_arith)
            requires
                bottom == 65535 * pa,
        ;
        vstd::arithmetic::div_mod::lemma_div_multiples_vanish_quotient(f, top, bottom);
        assert((255 * sum) / (65535 * (f * pa)) == top / bottom);
    } else {
        assert(f * pa < 0) by (nonlinear_arith)
            requires
                f < 0,
                pa > 0,
        ;
        assert(255 * (-(f * part)) == (-f) * top) by (nonlinear_arith)
            requires
                top == 255 * part,
        ;
        assert(65535 * (-(f * pa)) == (-f) * bottom) by (nonlinear_arith)
            requires
                bottom == 65535 * pa,
        ;
        vstd::arithmetic::div_mod::lemma_div_multiples_vanish_quotient(-f, top, bottom);
        assert((255 * (-sum)) / (65535 * (-(f * pa))) == top / bottom);
    }
}

/// With equal shares for the three corners a channel of the blend is the
/// average of the corner channels.
proof fn lemma_blend_equal_shares(s: int, ch: int, cw: int, cb: int)
    requires
        s != 0,
        0 <= ch <= 65535,
        0 <= cw <= 65535,
        0 <= cb <= 65535,
    ensures
        blend(s, s, s, 3 * s, ch, cw, cb) == average8(ch, cw, cb),
{
    assert(s * 1 == s && s * 3 == 3 * s) by (nonlinear_arith);
    lemma_blend_common_factor(s, 1, 1, 1, 3, ch, cw, cb);
    let sum = 1 * ch + 1 * cw + 1 * cb;
    let three: int = 3;
    assert((255 * sum) / (65535 * three) == average8(ch, cw, cb));
    assert(0 <= average8(ch, cw, cb) <= 255) by (nonlinear_arith)
        requires
            average8(ch, cw, cb) == (255 * (ch + cw + cb)) / 196605,
            0 <= ch + cw + cb <= 196605,
    ;
}

/// With the whole area for the share of one corner a channel of the blend is
/// that corner's channel.
proof fn lemma_blend_whole_share(a: int, ch: int, cw: int, cb: int)
    requires
        a != 0,
        0 <= ch <= 65535,
        0 <= cw <= 65535,
        0 <= cb <= 65535,
    ensures
        blend(a, 0, 0, a, ch, cw, cb) == level8(ch),
        blend(0, a, 0, a, ch, cw, cb) == level8(cw),
        blend(0, 0, a, a, ch, cw, cb) == level8(cb),
{
    assert(a * 1 == a && a * 0 == 0) by (nonlinear_arith);
    lemma_blend_common_factor(a, 1, 0, 0, 1, ch, cw, cb);
    lemma_blend_common_factor(a, 0, 1, 0, 1, ch, cw, cb);
    lemma_blend_common_factor(a, 0, 0, 1, 1, ch, cw, cb);
    assert(1 * ch + 0 * cw + 0 * cb == ch);
    assert(0 * ch + 1 * cw + 0 * cb == cw);
    assert(0 * ch + 0 * cw + 1 * cb == cb);
    lemma_level8_bounds(ch);
    lemma_level8_bounds(cw);
    lemma_level8_bounds(cb);
    let one: int = 1;
    assert((255 * ch) / (65535 * one) == level8(ch));
    assert((255 * cw) / (65535 * one) == level8(cw));
    assert((255 * cb) / (65535 * one) == level8(cb));
}

/// At the centroid of a triangle with an area each corner has a third of the
/// area for its share. The triangle covers the point, and each channel of the
/// blend there is the average of the three corner channels.
pub proof fn lemma_centroid_is_average(t: Triangle, c: Corners, x: int, y: int)
    requires
        area2(t) != 0,
        3 * x == t.hue.x + t.white.x + t.black.x,
        3 * y == t.hue.y + t.white.y + t.black.y,
    ensures
        3 * hue_share(t, x, y) == area2(t),
        3 * white_share(t, x, y) == area2(t),
        3 * black_share(t, x, y) == area2(t),
        covers(t, x, y),
        shade_at(t, c, x, y) == argb(
            average8(c.hue.red as int, c.white.red as int, c.black.red as int),
            average8(c.hue.green as int, c.white.green as int, c.black.green as int),
            average8(c.hue.blue as int, c.white.blue as int, c.black.blue as int),
        ),
{
    let hx = t.hue.x as int;
    let hy = t.hue.y as int;
    let wx = t.white.x as int;
    let wy = t.white.y as int;
    let bx = t.black.x as int;
    let by = t.black.y as int;
    assert(3 * ((wy - by) * (x - bx) + (bx - wx) * (y - by)) == (wy - by) * (hx - bx) + (bx - wx)
        * (hy - by)) by (nonlinear_arith)
        requires
            3 * x == hx + wx + bx,
            3 * y == hy + wy + by,
    ;
    assert(3 * ((by - hy) * (x - bx) + (hx - bx) * (y - by)) == (wy - by) * (hx - bx) + (bx - wx)
        * (hy - by)) by (nonlinear_arith)
        requires
            3 * x == hx + wx + bx,
            3 * y == hy + wy + by,
    ;
    let s = hue_share(t, x, y);
    assert(s == white_share(t, x, y) && s == black_share(t, x, y) && area2(t) == 3 * s);
    lemma_blend_equal_shares(s, c.hue.red as int, c.white.red as int, c.black.red as int);
    lemma_blend_equal_shares(s, c.hue.green as int, c.white.green as int, c.black.green as int);
    lemma_blend_equal_shares(s, c.hue.blue as int, c.white.blue as int, c.black.blue as int);
}

/// At each corner of a triangle with an area the blend is the colour of that
/// corner, each channel as an 8-bit level. So the white corner is white where
/// its colour is white, and the black corner black where its colour is black.
pub proof fn lemma_corner_colors(t: Triangle, c: Corners)
    requires
        area2(t) != 0,
    ensures
        shade_at(t, c, t.hue.x as int, t.hue.y as int) == argb(
            level8(c.hue.red as int),
            level8(c.hue.green as int),
            level8(c.hue.blue as int),
        ),
        shade_at(t, c, t.white.x as int, t.white.y as int) == argb(
            level8(c.white.red as int),
            level8(c.white.green as int),
            level8(c.white.blue as int),
        ),
        shade_at(t, c, t.black.x as int, t.black.y as int) == argb(
            level8(c.black.red as int),
            level8(c.black.green as int),
            level8(c.black.blue as int),
        ),
        c.white.red == 65535 && c.white.green == 65535 && c.white.blue == 65535 ==> shade_at(
            t,
            c,
            t.white.x as int,
            t.white.y as int,
        ) == 4294967295,
        c.black.red == 0 && c.black.green == 0 && c.black.blue == 0 ==> shade_at(
            t,
            c,
            t.black.x as int,
            t.black.y as int,
        ) == 4278190080,
{
    lemma_corner_shares(t);
    let a = area2(t);
    lemma_blend_whole_share(a, c.hue.red as int, c.white.red as int, c.black.red as int);
    lemma_blend_whole_share(a, c.hue.green as int, c.white.green as int, c.black.green as int);
    lemma_blend_whole_share(a, c.hue.blue as int, c.white.blue as int, c.black.blue as int);
}

/// Whether the point `(x, y)` lies in the triangle, its boundary included: the
/// triangle has an area, and no weight at the point is negative.
pub open spec fn contains(t: Triangle, x: int, y: int) -> bool {
    if area2(t) > 0 {
        hue_share(t, x, y) >= 0 && white_share(t, x, y) >= 0 && black_share(t, x, y) >= 0
    } else if area2(t) < 0 {
        hue_share(t, x, y) <= 0 && white_share(t, x, y) <= 0 && black_share(t, x, y) <= 0
    } else {
        false
    }
}

/// A number that is the mean of three others, weighted by shares of one sign,
/// lies between the least and the greatest of the three.
proof fn lemma_weighted_mean_bounds(
    area: int,
    sh: int,
    sw: int,
    sb: int,
    h: int,
    w: int,
    b: int,
    x: int,
)
    requires
        area > 0,
        sh >= 0 && sw >= 0 && sb >= 0,
        sh + sw + sb == area,
        area * x == sh * h + sw * w + sb * b,
    ensures
        crate::color::min3(h, w, b) <= x <= crate::color::max3(h, w, b),
{
    let lo = crate::color::min3(h, w, b);
    let hi = crate::color::max3(h, w, b);
    assert(sh * lo <= sh * h <= sh * hi) by (nonlinear_arith)
        requires
            sh >= 0,
            lo <= h <= hi,
    ;
    assert(sw * lo <= sw * w <= sw * hi) by (nonlinear_arith)
        requires
            sw >= 0,
            lo <= w <= hi,
    ;
    assert(sb * lo <= sb * b <= sb * hi) by (nonlinear_arith)
        requires
            sb >= 0,
            lo <= b <= hi,
    ;
    assert(area * lo == sh * lo + sw * lo + sb * lo) by (nonlinear_arith)
        requires
            sh + sw + sb == area,
    ;
    assert(area * hi == sh * hi + sw * hi + sb * hi) by (nonlinear_arith)
        requires
            sh + sw + sb == area,
    ;
    assert(lo <= x <= hi) by (nonlinear_arith)
        requires
            area > 0,
            area * lo <= area * x <= area * hi,
    ;
}

/// Two sums of two products each, crossed with the factors of one another.
proof fn lemma_crossed_sums(a: int, b: int, c: int, d: int, x: int, y: int)
    ensures
        (a * x + b * y) * d - (c * x + d * y) * b == (a * d - b * c) * x,
        (c * x + d * y) * a - (a * x + b * y) * c == (a * d - b * c) * y,
{
    let axd = (a * x) * d;
    let byd = (b * y) * d;
    let cxb = (c * x) * b;
    let dyb = (d * y) * b;
    let cxa = (c * x) * a;
    let dya = (d * y) * a;
    let axc = (a * x) * c;
    let byc = (b * y) * c;
    assert((a * x + b * y) * d == axd + byd) by (nonlinear_arith)
        requires
            axd == (a * x) * d,
            byd == (b * y) * d,
    ;
    assert((c * x + d * y) * b == cxb + dyb) by (nonlinear_arith)
        requires
            cxb == (c * x) * b,
            dyb == (d * y) * b,
    ;
    assert((c * x + d * y) * a == cxa + dya) by (nonlinear_arith)
        requires
            cxa == (c * x) * a,
            dya == (d * y) * a,
    ;
    assert((a * x + b * y) * c == axc + byc) by (nonlinear_arith)
        requires
            axc == (a * x) * c,
            byc == (b * y) * c,
    ;
    assert(byd == dyb) by (nonlinear_arith)
        requires
            byd == (b * y) * d,
            dyb == (d * y) * b,
    ;
    assert(cxa == axc) by (nonlinear_arith)
        requires
            cxa == (c * x) * a,
            axc == (a * x) * c,
    ;
    assert((a * d - b * c) * x == axd - cxb) by (nonlinear_arith)
        requires
            axd == (a * x) * d,
            cxb == (c * x) * b,
    ;
    assert((a * d - b * c) * y == dya - byc) by (nonlinear_arith)
        requires
            dya == (d * y) * a,
            byc == (b * y) * c,
    ;
}

/// The shares at a point weigh the corners to the point itself: the area
/// times each coordinate of the point is the sum of the shares times that
/// coordinate of their corners.
pub proof fn lemma_shares_weigh_to_the_point(t: Triangle, x: int, y: int)
    ensures
        area2(t) * x == hue_share(t, x, y) * t.hue.x + white_share(t, x, y) * t.white.x
            + black_share(t, x, y) * t.black.x,
        area2(t) * y == hue_share(t, x, y) * t.hue.y + white_share(t, x, y) * t.white.y
            + black_share(t, x, y) * t.black.y,
{
    let hx = t.hue.x as int;
    let hy = t.hue.y as int;
    let wx = t.white.x as int;
    let wy = t.white.y as int;
    let bx = t.black.x as int;
    let by = t.black.y as int;
    let a = wy - by;
    let b = bx - wx;
    let c = by - hy;
    let d = hx - bx;
    let area = area2(t);
    let sh = hue_share(t, x, y);
    let sw = white_share(t, x, y);
    let sb = black_share(t, x, y);
    lemma_crossed_sums(a, b, c, d, x - bx, y - by);
    assert(area == a * d - b * c) by (nonlinear_arith)
        requires
            area == a * d + b * (hy - by),
            c == by - hy,
    ;
    assert(sh == a * (x - bx) + b * (y - by));
    assert(sw == c * (x - bx) + d * (y - by));
    assert(sh * d - sw * b == area * (x - bx));
    assert(sw * a - sh * c == area * (y - by));
    assert(area * x == sh * hx + sw * wx + sb * bx) by (nonlinear_arith)
        requires
            sh * d - sw * b == area * (x - bx),
            d == hx - bx,
            b == bx - wx,
            sb == area - sh - sw,
    ;
    assert(area * y == sh * hy + sw * wy + sb * by) by (nonlinear_arith)
        requires
            sw * a - sh * c == area * (y - by),
            a == wy - by,
            c == by - hy,
            sb == area - sh - sw,
    ;
}

/// A point in the triangle lies between the least and the greatest coordinate
/// of the corners, in both directions.
pub proof fn lemma_contained_points_are_between_corners(t: Triangle, x: int, y: int)
    requires
        contains(t, x, y),
    ensures
        crate::color::min3(t.hue.x as int, t.white.x as int, t.black.x as int) <= x
            <= crate::color::max3(t.hue.x as int, t.white.x as int, t.black.x as int),
        crate::color::min3(t.hue.y as int, t.white.y as int, t.black.y as int) <= y
            <= crate::color::max3(t.hue.y as int, t.white.y as int, t.black.y as int),
{
    lemma_shares_weigh_to_the_point(t, x, y);
    let a = area2(t);
    let sh = hue_share(t, x, y);
    let sw = white_share(t, x, y);
    let sb = black_share(t, x, y);
    if a > 0 {
        lemma_weighted_mean_bounds(
            a,
            sh,
            sw,
            sb,
            t.hue.x as int,
            t.white.x as int,
            t.black.x as int,
            x,
        );
        lemma_weighted_mean_bounds(
            a,
            sh,
            sw,
            sb,
            t.hue.y as int,
            t.white.y as int,
            t.black.y as int,
            y,
        );
    } else {
        assert((-a) * x == (-sh) * t.hue.x + (-sw) * t.white.x + (-sb) * t.black.x)
            by (nonlinear_arith)
            requires
                a * x == sh * t.hue.x + sw * t.white.x + sb * t.black.x,
        ;
        assert((-a) * y == (-sh) * t.hue.y + (-sw) * t.white.y + (-sb) * t.black.y)
            by (nonlinear_arith)
            requires
                a * y == sh * t.hue.y + sw * t.white.y + sb * t.black.y,
        ;
        lemma_weighted_mean_bounds(
            -a,
            -sh,
            -sw,
            -sb,
            t.hue.x as int,
            t.white.x as int,
            t.black.x as int,
            x,
        );
        lemma_weighted_mean_bounds(
            -a,
            -sh,
            -sw,
            -sb,
            t.hue.y as int,
            t.white.y as int,
            t.black.y as int,
            y,
        );
    }
}

/// The box loses nothing: every pixel of the canvas whose centre lies in the
/// triangle is painted.
pub proof fn lemma_contained_pixels_are_painted(
    t: Triangle,
    width: int,
    height: int,
    x: int,
    y: int,
)
    requires
        0 <= x < width,
        0 <= y < height,
        contains(t, center_of(x), center_of(y)),
    ensures
        paints(t, width, height, x, y),
{
    lemma_contained_points_are_between_corners(t, center_of(x), center_of(y));
    let a = area2(t);
    let sh = hue_share(t, center_of(x), center_of(y));
    let sw = white_share(t, center_of(x), center_of(y));
    let sb = black_share(t, center_of(x), center_of(y));
    assert(admits(sh, a) && admits(sw, a) && admits(sb, a));
}

/// The pixel of the canvas whose centre is the centroid of a triangle with an
/// area is painted with the average of the three corner colours.
pub proof fn lemma_centroid_pixel_is_average(
    before: u32,
    t: Triangle,
    c: Corners,
    width: int,
    height: int,
    x: int,
    y: int,
)
    requires
        0 <= x < width,
        0 <= y < height,
        area2(t) != 0,
        3 * center_of(x) == t.hue.x + t.white.x + t.black.x,
        3 * center_of(y) == t.hue.y + t.white.y + t.black.y,
    ensures
        painted(before, t, c, width, height, x, y) == argb(
            average8(c.hue.red as int, c.white.red as int, c.black.red as int),
            average8(c.hue.green as int, c.white.green as int, c.black.green as int),
            average8(c.hue.blue as int, c.white.blue as int, c.black.blue as int),
        ),
{
    lemma_centroid_is_average(t, c, center_of(x), center_of(y));
    lemma_contained_pixels_are_painted(t, width, height, x, y);
    lemma_shade_bounds(t, c, center_of(x), center_of(y));
}

/// A pixel of the canvas whose centre is the white corner of a triangle with
/// an area is painted white where that corner's colour is white, and one
/// whose centre is the black corner black where that corner's colour is
/// black.
pub proof fn lemma_corner_pixels(
    before: u32,
    t: Triangle,
    c: Corners,
    width: int,
    height: int,
    x: int,
    y: int,
)
    requires
        0 <= x < width,
        0 <= y < height,
        area2(t) != 0,
    ensures
        center_of(x) == t.white.x && center_of(y) == t.white.y && c.white == (Rgb {
            red: 65535,
            green: 65535,
            blue: 65535,
        }) ==> painted(before, t, c, width, height, x, y) == 4294967295,
        center_of(x) == t.black.x && center_of(y) == t.black.y && c.black == (Rgb {
            red: 0,
            green: 0,
            blue: 0,
        }) ==> painted(before, t, c, width, height, x, y) == 4278190080,
{
    lemma_corner_shares(t);
    lemma_corner_colors(t, c);
    if (center_of(x) == t.white.x && center_of(y) == t.white.y) || (center_of(x) == t.black.x
        && center_of(y) == t.black.y) {
        lemma_contained_pixels_are_painted(t, width, height, x, y);
    }
}

} // verus!
