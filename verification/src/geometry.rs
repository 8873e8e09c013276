//! Where the ring and the triangle lie on the canvas.
//!
//! Lengths and positions are fixed-point numbers with 256 units to the pixel, so
//! that the centre of a pixel and the centre of a canvas of odd size are exact.
//! Angles are whole micro-degrees, measured clockwise on the screen. A direction
//! is a pair of cosine and sine, each scaled by `UNIT`.

use vstd::prelude::*;

verus! {

/// Units of length per pixel.
pub const SUBPIXEL: i32 = 256;

/// Thickness of the hue ring between its centre line and its edge, 10 pixels.
pub const RING_THICKNESS: i32 = 2560;

/// The fixed-point one of a direction's components, 2 to the 30th.
pub const UNIT: i32 = 1073741824;

/// One full turn in micro-degrees.
pub const FULL_TURN: i64 = 360000000;

/// A third of a turn in micro-degrees: the angle between two corners of the
/// triangle, seen from its centre.
pub const THIRD_TURN: i64 = 120000000;

/// A quarter of a turn in micro-degrees.
pub const QUARTER_TURN: i64 = 90000000;

/// A position on the canvas, 256 units to the pixel, `y` growing downwards.
#[derive(Debug, Clone, Copy, PartialEq, Eq, Structural)]
pub struct Point {
    pub x: i32,
    pub y: i32,
}

/// A direction on the canvas: cosine and sine of its angle, scaled by `UNIT`.
#[derive(Debug, Clone, Copy, PartialEq, Eq, Structural)]
pub struct Direction {
    pub cos: i32,
    pub sin: i32,
}

/// Centre and radii of the picker on a canvas.
#[derive(Debug, Clone, Copy, PartialEq, Eq, Structural)]
pub struct Layout {
    /// The centre of the canvas.
    pub center: Point,
    /// Radius of the centre line of the hue ring.
    pub ring_radius: i32,
    /// Radius of the circle through the corners of the triangle.
    pub triangle_radius: i32,
}

/// The triangle by its corners. Which corner is which matters: the hue corner
/// carries the pure colour, the other two carry white and black.
#[derive(Debug, Clone, Copy, PartialEq, Eq, Structural)]
pub struct Triangle {
    pub hue: Point,
    pub white: Point,
    pub black: Point,
}

/// The layout on a canvas of `width` by `height` pixels: the centre in the
/// middle, the ring one thickness inside the nearer edge, the triangle one
/// thickness inside the ring.
pub open spec fn layout_of(width: int, height: int) -> Layout {
    let cx = width * 128;
    let cy = height * 128;
    let nearer = if cx <= cy {
        cx
    } else {
        cy
    };
    Layout {
        center: Point { x: cx as i32, y: cy as i32 },
        ring_radius: (nearer - 2560) as i32,
        triangle_radius: (nearer - 5120) as i32,
    }
}

/// Computes the layout on a canvas of `width` by `height` pixels.
pub fn layout(width: u16, height: u16) -> (l: Layout)
    ensures
        l == layout_of(width as int, height as int),
        l.center.x == width * 128,
        l.center.y == height * 128,
        l.ring_radius == (if width <= height {
            width * 128
        } else {
            height * 128
        }) - 2560,
        l.triangle_radius == l.ring_radius - 2560,
{
    let cx: i32 = (width as i32) * (SUBPIXEL / 2);
    let cy: i32 = (height as i32) * (SUBPIXEL / 2);
    let nearer: i32 = if cx <= cy {
        cx
    } else {
        cy
    };
    Layout {
        center: Point { x: cx, y: cy },
        ring_radius: nearer - RING_THICKNESS,
        triangle_radius: nearer - 2 * RING_THICKNESS,
    }
}

/// An angle brought into the first turn: the angle in `0..360000000` that
/// differs from it by whole turns.
pub open spec fn normalized(angle: int) -> int {
    angle % 360000000
}

/// Brings an angle into the first turn.
pub fn normalize(angle: i64) -> (r: i64)
    ensures
        r == normalized(angle as int),
        0 <= r < 360000000,
{
    if angle >= 0 {
        angle % FULL_TURN
    } else {
        let below: i64 = (-(angle + 1)) % FULL_TURN;
        FULL_TURN - 1 - below
    }
}

/// The angle at which a corner of the triangle is seen from the centre, when
/// the triangle is turned by `rotation`: the hue corner (`corner` 0) a quarter
/// turn before the x axis, that is straight up, the white corner (1) and the
/// black corner (2) a third and two thirds of a turn further on.
pub open spec fn corner_bearing(rotation: int, corner: int) -> int {
    normalized(rotation) + corner * 120000000 - 90000000
}

/// Computes the angles at which the three corners are seen from the centre, in
/// the order hue, white, black.
pub fn corner_bearings(rotation: i64) -> (b: (i64, i64, i64))
    ensures
        b.0 == corner_bearing(rotation as int, 0),
        b.1 == corner_bearing(rotation as int, 1),
        b.2 == corner_bearing(rotation as int, 2),
{
    let base: i64 = normalize(rotation) - QUARTER_TURN;
    (base, base + THIRD_TURN, base + 2 * THIRD_TURN)
}

/// A radius times a direction component, rounded to the nearest unit of
/// length, halves upwards.
pub open spec fn reach(radius: int, component: int) -> int {
    (radius * component + 536870912) / 1073741824
}

/// The point at distance `radius` from `center` in direction `dir`.
pub open spec fn point_at(center: Point, radius: int, dir: Direction) -> Point {
    Point {
        x: (center.x + reach(radius, dir.cos as int)) as i32,
        y: (center.y + reach(radius, dir.sin as int)) as i32,
    }
}

/// The triangle on a canvas of `width` by `height` pixels whose corners are
/// seen from the centre in the three directions given.
pub open spec fn triangle_of(
    width: int,
    height: int,
    hue_dir: Direction,
    white_dir: Direction,
    black_dir: Direction,
) -> Triangle {
    let l = layout_of(width, height);
    Triangle {
        hue: point_at(l.center, l.triangle_radius as int, hue_dir),
        white: point_at(l.center, l.triangle_radius as int, white_dir),
        black: point_at(l.center, l.triangle_radius as int, black_dir),
    }
}

/// The reach of a radius that fits a canvas stays far inside the range of a
/// coordinate.
pub proof fn lemma_reach_bounds(radius: int, component: int)
    requires
        -5120 <= radius <= 8388480,
        -2147483648 <= component <= 2147483647,
    ensures
        -16777216 <= reach(radius, component) <= 16777216,
        0 <= radius * component + 536870912 + 72057594037927936,
        radius * component + 536870912 + 72057594037927936 <= 144115188075855872,
{
    assert(-8388480 * 2147483648 <= radius * component <= 8388480 * 2147483648)
        by (nonlinear_arith)
        requires
            -8388480 <= radius <= 8388480,
            -2147483648 <= component <= 2147483648,
    ;
}

/// In a direction along an axis the reach is the radius itself, and across it
/// nothing.
pub proof fn lemma_reach_on_axis(radius: int)
    ensures
        reach(radius, 1073741824) == radius,
        reach(radius, -1073741824) == -radius,
        reach(radius, 0) == 0,
{
    assert(radius * 0 == 0) by (nonlinear_arith);
}

fn reach_of(radius: i32, component: i32) -> (r: i32)
    requires
        -5120 <= radius <= 8388480,
    ensures
        r == reach(radius as int, component as int),
        -16777216 <= r <= 16777216,
{
    proof {
        lemma_reach_bounds(radius as int, component as int);
    }
    let scaled: i64 = (radius as i64) * (component as i64) + 536870912;
    // Raised by 2^26 units so that the division never sees a negative number.
    let raised: i64 = scaled + 72057594037927936;
    ((raised / 1073741824) - 67108864) as i32
}

fn point_of(center: Point, radius: i32, dir: Direction) -> (p: Point)
    requires
        0 <= center.x <= 8388480,
        0 <= center.y <= 8388480,
        -5120 <= radius <= 8388480,
    ensures
        p == point_at(center, radius as int, dir),
{
    Point { x: center.x + reach_of(radius, dir.cos), y: center.y + reach_of(radius, dir.sin) }
}

/// Computes the triangle on a canvas of `width` by `height` pixels from the
/// directions in which its corners are seen from the centre.
pub fn triangle_vertices(
    width: u16,
    height: u16,
    hue_dir: Direction,
    white_dir: Direction,
    black_dir: Direction,
) -> (t: Triangle)
    ensures
        t == triangle_of(width as int, height as int, hue_dir, white_dir, black_dir),
{
    let l = layout(width, height);
    Triangle {
        hue: point_of(l.center, l.triangle_radius, hue_dir),
        white: point_of(l.center, l.triangle_radius, white_dir),
        black: point_of(l.center, l.triangle_radius, black_dir),
    }
}

/// With the hue corner straight up it lies one triangle radius above the
/// centre of the canvas.
pub proof fn lemma_hue_corner_straight_up(
    width: int,
    height: int,
    white_dir: Direction,
    black_dir: Direction,
)
    requires
        0 <= width <= 65535,
        0 <= height <= 65535,
    ensures
        ({
            let l = layout_of(width, height);
            let up = Direction { cos: 0i32, sin: (-1073741824i32) as i32 };
            let t = triangle_of(width, height, up, white_dir, black_dir);
            &&& t.hue.x == l.center.x
            &&& t.hue.y == l.center.y - l.triangle_radius
        }),
{
    let l = layout_of(width, height);
    lemma_reach_on_axis(l.triangle_radius as int);
}

} // verus!
