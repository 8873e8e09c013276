//! The picker: what the pointer does to the colour.
//!
//! A press on or outside the circle through the corners of the triangle turns
//! the ring; while the button is held, the angle of the pointer becomes the
//! rotation of the triangle and the hue of the colour. A press inside that
//! circle picks in the triangle; while the button is held, the angles under
//! which the pointer is seen from the white and the black corner become value
//! and saturation. Which of the two a gesture is, is decided once, at the
//! press.
//!
//! The picker measures no angle itself. Where it needs one it returns the
//! vectors to measure as an [`Action`]; the caller measures and hands the
//! angles back.

use crate::color::{hsv_to_rgb, Color, Rgb, CHANNEL_MAX};
use crate::geometry::{
    corner_bearing,
    layout,
    layout_of,
    normalize,
    normalized,
    triangle_of,
    triangle_vertices,
    Direction,
    Layout,
    Point,
    Triangle,
};
use crate::raster::{painted, Canvas, Corners};
use vstd::prelude::*;

verus! {

/// What the pointer is doing.
#[derive(Debug, Clone, Copy, PartialEq, Eq, Structural)]
pub enum Gesture {
    /// No button is held.
    Idle,
    /// The button went down on the ring: the pointer turns the ring.
    DraggingRing,
    /// The button went down inside the triangle's circle: the pointer picks
    /// saturation and value.
    DraggingTriangle,
}

/// A difference of two positions, 256 units to the pixel.
#[derive(Debug, Clone, Copy, PartialEq, Eq, Structural)]
pub struct Vector {
    pub dx: i64,
    pub dy: i64,
}

/// What the caller is to do after an event.
#[derive(Debug, Clone, Copy, PartialEq, Eq, Structural)]
pub enum Action {
    /// Nothing.
    Ignore,
    /// Draw the picker anew: the colour or the rotation has changed.
    Redraw,
    /// Measure the angle of the pointer, seen from the centre: the clockwise
    /// angle from straight up to `offset`. Hand it to
    /// [`PickerState::apply_bearing`].
    MeasureBearing { offset: Vector },
    /// Measure two angles: the one between `to_white` and `white_edge`, and
    /// the one between `to_black` and `black_edge`. Hand them to
    /// [`PickerState::apply_corner_angles`], in this order.
    MeasureCorners { to_white: Vector, white_edge: Vector, to_black: Vector, black_edge: Vector },
}

/// An event from the pointer, or an angle that was measured.
#[derive(Debug, Clone, Copy, PartialEq, Eq, Structural)]
pub enum Event {
    /// The button went down at `(x, y)`.
    Press { x: i32, y: i32 },
    /// The pointer moved to `(x, y)`.
    Move { x: i32, y: i32 },
    /// The button went up.
    Release,
    /// The pointer is `(dx, dy)` away from where the button went down.
    DragUpdate { dx: i32, dy: i32 },
    /// The angle asked for by [`Action::MeasureBearing`], in micro-degrees.
    Bearing { angle: i64 },
    /// The angles asked for by [`Action::MeasureCorners`], in micro-degrees.
    CornerAngles { at_white: i64, at_black: i64 },
}

/// The state of the picker between events.
#[derive(Debug, Clone, Copy, PartialEq, Eq, Structural)]
pub struct PickerState {
    /// By how much the triangle is turned, in micro-degrees clockwise.
    pub rotation: i64,
    /// What the pointer is doing.
    pub gesture: Gesture,
    /// Where the button last went down.
    pub anchor: Point,
    /// Centre and radii as last drawn.
    pub layout: Layout,
    /// The triangle as last drawn.
    pub triangle: Triangle,
}

/// The vector from `from` to `to`.
pub open spec fn vector_between(from_x: int, from_y: int, to_x: int, to_y: int) -> Vector {
    Vector { dx: (to_x - from_x) as i64, dy: (to_y - from_y) as i64 }
}

/// Whether a vector has no length.
pub open spec fn is_null(v: Vector) -> bool {
    v.dx == 0 && v.dy == 0
}

/// Whether a point at `offset` from the centre lies on or outside the circle
/// of `radius` round the centre.
pub open spec fn reaches(offset: Vector, radius: int) -> bool {
    radius <= 0 || offset.dx * offset.dx + offset.dy * offset.dy >= radius * radius
}

/// The hue that belongs to a rotation: the part of the full turn that the
/// rotation has covered, scaled to a channel and truncated.
pub open spec fn hue_of_rotation(rotation: int) -> int {
    normalized(rotation) * 65535 / 360000000
}

/// The level that belongs to an angle at a corner of the triangle: the angle
/// as a part of the sixth of a turn that the corner spans, no less than
/// nothing and no more than all of it, scaled to a channel and truncated.
pub open spec fn level_of_angle(angle: int) -> int {
    if angle <= 0 {
        0
    } else if angle >= 60000000 {
        65535
    } else {
        angle * 65535 / 60000000
    }
}

/// Computes the hue that belongs to a rotation.
pub fn rotation_hue(rotation: i64) -> (h: u16)
    ensures
        h == hue_of_rotation(rotation as int),
{
    let turned: i64 = normalize(rotation);
    (turned * 65535 / 360000000) as u16
}

/// Computes the level that belongs to an angle at a corner of the triangle.
pub fn angle_level(angle: i64) -> (l: u16)
    ensures
        l == level_of_angle(angle as int),
{
    if angle <= 0 {
        0
    } else if angle >= 60000000 {
        CHANNEL_MAX
    } else {
        (angle * 65535 / 60000000) as u16
    }
}

fn vector_of(from_x: i64, from_y: i64, to_x: i64, to_y: i64) -> (v: Vector)
    requires
        -4294967296 <= from_x <= 4294967296,
        -4294967296 <= from_y <= 4294967296,
        -4294967296 <= to_x <= 4294967296,
        -4294967296 <= to_y <= 4294967296,
    ensures
        v == vector_between(from_x as int, from_y as int, to_x as int, to_y as int),
        v.dx == to_x - from_x,
        v.dy == to_y - from_y,
{
    Vector { dx: to_x - from_x, dy: to_y - from_y }
}

fn reaches_of(offset: Vector, radius: i32) -> (r: bool)
    requires
        -4294967296 <= offset.dx <= 4294967296,
        -4294967296 <= offset.dy <= 4294967296,
    ensures
        r == reaches(offset, radius as int),
{
    if radius <= 0 {
        return true;
    }
    assert(0 <= offset.dx * offset.dx <= 18446744073709551616) by (nonlinear_arith)
        requires
            -4294967296 <= offset.dx <= 4294967296,
    ;
    assert(0 <= offset.dy * offset.dy <= 18446744073709551616) by (nonlinear_arith)
        requires
            -4294967296 <= offset.dy <= 4294967296,
    ;
    assert(0 <= radius * radius <= 4611686018427387904) by (nonlinear_arith)
        requires
            0 <= radius <= 2147483648,
    ;
    let far: i128 = (offset.dx as i128) * (offset.dx as i128) + (offset.dy as i128) * (
    offset.dy as i128);
    far >= (radius as i128) * (radius as i128)
}

impl PickerState {
    /// The vector from the centre to the point `(x, y)`.
    pub open spec fn offset_to(&self, x: int, y: int) -> Vector {
        vector_between(self.layout.center.x as int, self.layout.center.y as int, x, y)
    }

    /// The state after the button went down at `(x, y)`: the point is the
    /// anchor, and the gesture turns the ring where the point reaches the
    /// triangle's circle, and picks in the triangle where it does not.
    pub open spec fn after_press(&self, x: i32, y: i32) -> PickerState {
        PickerState {
            anchor: Point { x, y },
            gesture: if reaches(
                self.offset_to(x as int, y as int),
                self.layout.triangle_radius as int,
            ) {
                Gesture::DraggingRing
            } else {
                Gesture::DraggingTriangle
            },
            ..*self
        }
    }

    /// What is asked for after the button went down at `(x, y)`: the angle of
    /// the pointer where the gesture turns the ring.
    pub open spec fn press_action(&self, x: i32, y: i32) -> Action {
        if reaches(self.offset_to(x as int, y as int), self.layout.triangle_radius as int) {
            Action::MeasureBearing { offset: self.offset_to(x as int, y as int) }
        } else {
            Action::Ignore
        }
    }

    /// What is asked for after the pointer moved to `(x, y)`: its angle while
    /// the gesture turns the ring.
    pub open spec fn move_action(&self, x: i32, y: i32) -> Action {
        if self.gesture == Gesture::DraggingRing {
            Action::MeasureBearing { offset: self.offset_to(x as int, y as int) }
        } else {
            Action::Ignore
        }
    }

    /// What is asked for when the pointer is `(dx, dy)` away from the anchor:
    /// while the gesture picks in the triangle, the angles at the white and at
    /// the black corner between the pointer and the edge that joins the two,
    /// unless the pointer lies on one of the two corners or the two corners
    /// fall together.
    pub open spec fn drag_action(&self, dx: i32, dy: i32) -> Action {
        let px = self.anchor.x + dx;
        let py = self.anchor.y + dy;
        let t = self.triangle;
        let to_white = vector_between(px, py, t.white.x as int, t.white.y as int);
        let white_edge = vector_between(
            t.white.x as int,
            t.white.y as int,
            t.black.x as int,
            t.black.y as int,
        );
        let to_black = vector_between(px, py, t.black.x as int, t.black.y as int);
        let black_edge = vector_between(
            t.black.x as int,
            t.black.y as int,
            t.white.x as int,
            t.white.y as int,
        );
        if self.gesture != Gesture::DraggingTriangle {
            Action::Ignore
        } else if is_null(to_white) || is_null(white_edge) || is_null(to_black) {
            Action::Ignore
        } else {
            Action::MeasureCorners { to_white, white_edge, to_black, black_edge }
        }
    }

    /// A picker that has not been drawn yet: not turned, no button held, laid
    /// out for a canvas without pixels.
    pub fn new() -> (s: Self)
        ensures
            s.rotation == 0,
            s.gesture == Gesture::Idle,
            s.anchor == (Point { x: 0, y: 0 }),
            s.layout == layout_of(0, 0),
            s.triangle == (Triangle {
                hue: Point { x: 0, y: 0 },
                white: Point { x: 0, y: 0 },
                black: Point { x: 0, y: 0 },
            }),
    {
        let origin = Point { x: 0, y: 0 };
        PickerState {
            rotation: 0,
            gesture: Gesture::Idle,
            anchor: origin,
            layout: layout(0, 0),
            triangle: Triangle { hue: origin, white: origin, black: origin },
        }
    }

    /// Whether a button is held.
    pub fn engaged(&self) -> (r: bool)
        ensures
            r == (self.gesture != Gesture::Idle),
    {
        match self.gesture {
            Gesture::Idle => false,
            _ => true,
        }
    }

    fn offset_of(&self, x: i32, y: i32) -> (v: Vector)
        ensures
            v == self.offset_to(x as int, y as int),
            -4294967296 <= v.dx <= 4294967296,
            -4294967296 <= v.dy <= 4294967296,
    {
        vector_of(self.layout.center.x as i64, self.layout.center.y as i64, x as i64, y as i64)
    }

    /// The button went down at `(x, y)`. This begins a gesture and decides
    /// which it is.
    pub fn press(&mut self, x: i32, y: i32) -> (a: Action)
        ensures
            *final(self) == old(self).after_press(x, y),
            a == old(self).press_action(x, y),
    {
        let offset = self.offset_of(x, y);
        self.anchor = Point { x, y };
        if reaches_of(offset, self.layout.triangle_radius) {
            self.gesture = Gesture::DraggingRing;
            Action::MeasureBearing { offset }
        } else {
            self.gesture = Gesture::DraggingTriangle;
            Action::Ignore
        }
    }

    /// The pointer moved to `(x, y)`.
    pub fn pointer_move(&self, x: i32, y: i32) -> (a: Action)
        ensures
            a == self.move_action(x, y),
    {
        match self.gesture {
            Gesture::DraggingRing => Action::MeasureBearing { offset: self.offset_of(x, y) },
            _ => Action::Ignore,
        }
    }

    /// The button went up. This ends the gesture.
    pub fn release(&mut self)
        ensures
            *final(self) == (PickerState { gesture: Gesture::Idle, ..*old(self) }),
    {
        self.gesture = Gesture::Idle;
    }

    /// The pointer is `(dx, dy)` away from where the button went down.
    pub fn drag_update(&self, dx: i32, dy: i32) -> (a: Action)
        ensures
            a == self.drag_action(dx, dy),
    {
        match self.gesture {
            Gesture::DraggingTriangle => {},
            _ => {
                return Action::Ignore;
            },
        }
        let px: i64 = (self.anchor.x as i64) + (dx as i64);
        let py: i64 = (self.anchor.y as i64) + (dy as i64);
        let wx: i64 = self.triangle.white.x as i64;
        let wy: i64 = self.triangle.white.y as i64;
        let bx: i64 = self.triangle.black.x as i64;
        let by: i64 = self.triangle.black.y as i64;
        let to_white = vector_of(px, py, wx, wy);
        let white_edge = vector_of(wx, wy, bx, by);
        let to_black = vector_of(px, py, bx, by);
        let black_edge = vector_of(bx, by, wx, wy);
        if (to_white.dx == 0 && to_white.dy == 0) || (white_edge.dx == 0 && white_edge.dy == 0)
            || (to_black.dx == 0 && to_black.dy == 0) {
            Action::Ignore
        } else {
            Action::MeasureCorners { to_white, white_edge, to_black, black_edge }
        }
    }

    /// The angle of the pointer was measured. While the gesture turns the
    /// ring, the angle becomes the rotation, and the hue of the colour follows
    /// it; saturation and value stay. Else nothing changes.
    pub fn apply_bearing(&mut self, color: &mut Color, angle: i64) -> (a: Action)
        ensures
            old(self).gesture == Gesture::DraggingRing ==> {
                &&& *final(self) == (PickerState { rotation: angle, ..*old(self) })
                &&& final(color).hue == hue_of_rotation(angle as int)
                &&& final(color).saturation == old(color).saturation
                &&& final(color).value == old(color).value
                &&& final(color).rgb_follows_hsv()
                &&& final(color).complements()
                &&& a == Action::Redraw
            },
            old(self).gesture != Gesture::DraggingRing ==> {
                &&& *final(self) == *old(self)
                &&& *final(color) == *old(color)
                &&& a == Action::Ignore
            },
    {
        match self.gesture {
            Gesture::DraggingRing => {
                self.rotation = angle;
                color.set_hue(rotation_hue(angle));
                Action::Redraw
            },
            _ => Action::Ignore,
        }
    }

    /// The angles at the white and at the black corner were measured. While
    /// the gesture picks in the triangle, the angle at the white corner gives
    /// the value and the angle at the black corner the saturation; the hue
    /// stays. Else nothing changes.
    pub fn apply_corner_angles(&self, color: &mut Color, at_white: i64, at_black: i64) -> (a:
        Action)
        ensures
            self.gesture == Gesture::DraggingTriangle ==> {
                &&& final(color).hue == old(color).hue
                &&& final(color).saturation == level_of_angle(at_black as int)
                &&& final(color).value == level_of_angle(at_white as int)
                &&& final(color).rgb_follows_hsv()
                &&& final(color).complements()
                &&& a == Action::Redraw
            },
            self.gesture != Gesture::DraggingTriangle ==> {
                &&& *final(color) == *old(color)
                &&& a == Action::Ignore
            },
    {
        match self.gesture {
            Gesture::DraggingTriangle => {
                let hue = color.hue;
                color.set_hsv(hue, angle_level(at_black), angle_level(at_white));
                Action::Redraw
            },
            _ => Action::Ignore,
        }
    }

    /// The angles, in micro-degrees from the x axis, at which the corners of
    /// the triangle are seen from the centre, in the order hue, white, black.
    /// Their cosines and sines are what [`PickerState::render`] takes.
    pub fn corner_bearings(&self) -> (b: (i64, i64, i64))
        ensures
            b.0 == corner_bearing(self.rotation as int, 0),
            b.1 == corner_bearing(self.rotation as int, 1),
            b.2 == corner_bearing(self.rotation as int, 2),
    {
        crate::geometry::corner_bearings(self.rotation)
    }

    /// The colours at the corners of the triangle for a colour of hue `hue`:
    /// the hue at full saturation and value, white, and black.
    pub open spec fn corners_for(hue: u16) -> Corners {
        Corners {
            hue: Rgb {
                red: crate::color::red_of(hue as int, 65535, 65535) as u16,
                green: crate::color::green_of(hue as int, 65535, 65535) as u16,
                blue: crate::color::blue_of(hue as int, 65535, 65535) as u16,
            },
            white: Rgb { red: 65535, green: 65535, blue: 65535 },
            black: Rgb { red: 0, green: 0, blue: 0 },
        }
    }

    /// Draws the triangle on a fresh canvas of `width` by `height` pixels and
    /// remembers where it lies. The corners are seen from the centre in the
    /// three directions given; the hue corner has the hue of `color`. Every
    /// pixel that the triangle does not paint stays clear.
    pub fn render(
        &mut self,
        color: &Color,
        width: u16,
        height: u16,
        hue_dir: Direction,
        white_dir: Direction,
        black_dir: Direction,
    ) -> (canvas: Canvas)
        ensures
            *final(self) == (PickerState {
                layout: layout_of(width as int, height as int),
                triangle: triangle_of(width as int, height as int, hue_dir, white_dir, black_dir),
                ..*old(self)
            }),
            canvas.spec_width() == width,
            canvas.spec_height() == height,
            canvas@.len() == width * height,
            forall|x: int, y: int|
                0 <= x < width && 0 <= y < height ==> #[trigger] canvas.pixel(x, y) == painted(
                    0,
                    final(self).triangle,
                    Self::corners_for(color.hue),
                    width as int,
                    height as int,
                    x,
                    y,
                ),
    {
        self.layout = layout(width, height);
        self.triangle = triangle_vertices(width, height, hue_dir, white_dir, black_dir);
        let corners = Corners {
            hue: hsv_to_rgb(color.hue, CHANNEL_MAX, CHANNEL_MAX),
            white: Rgb { red: CHANNEL_MAX, green: CHANNEL_MAX, blue: CHANNEL_MAX },
            black: Rgb { red: 0, green: 0, blue: 0 },
        };
        let mut canvas = Canvas::new(width, height);
        let ghost clear = canvas;
        canvas.fill_triangle(&self.triangle, &corners);
        proof {
            assert forall|x: int, y: int| 0 <= x < width && 0 <= y < height implies clear.pixel(
                x,
                y,
            ) == 0 by {
                crate::raster::lemma_place(width as int, height as int, x, y);
            }
        }
        canvas
    }

    /// Handles one event: the pointer's events as the methods of their names
    /// do, and the measured angles as [`PickerState::apply_bearing`] and
    /// [`PickerState::apply_corner_angles`] do.
    pub fn step(&mut self, color: &mut Color, event: Event) -> (a: Action)
        ensures
            event matches Event::Press { x, y } ==> {
                &&& *final(self) == old(self).after_press(x, y)
                &&& a == old(self).press_action(x, y)
                &&& *final(color) == *old(color)
            },
            event matches Event::Move { x, y } ==> {
                &&& *final(self) == *old(self)
                &&& a == old(self).move_action(x, y)
                &&& *final(color) == *old(color)
            },
            event is Release ==> {
                &&& *final(self) == (PickerState { gesture: Gesture::Idle, ..*old(self) })
                &&& a == Action::Ignore
                &&& *final(color) == *old(color)
            },
            event matches Event::DragUpdate { dx, dy } ==> {
                &&& *final(self) == *old(self)
                &&& a == old(self).drag_action(dx, dy)
                &&& *final(color) == *old(color)
            },
            event matches Event::Bearing { angle } ==> {
                &&& old(self).gesture == Gesture::DraggingRing ==> {
                    &&& *final(self) == (PickerState { rotation: angle, ..*old(self) })
                    &&& final(color).hue == hue_of_rotation(angle as int)
                    &&& final(color).saturation == old(color).saturation
                    &&& final(color).value == old(color).value
                    &&& final(color).rgb_follows_hsv()
                    &&& final(color).complements()
                    &&& a == Action::Redraw
                }
                &&& old(self).gesture != Gesture::DraggingRing ==> {
                    &&& *final(self) == *old(self)
                    &&& *final(color) == *old(color)
                    &&& a == Action::Ignore
                }
            },
            event matches Event::CornerAngles { at_white, at_black } ==> {
                &&& *final(self) == *old(self)
                &&& old(self).gesture == Gesture::DraggingTriangle ==> {
                    &&& final(color).hue == old(color).hue
                    &&& final(color).saturation == level_of_angle(at_black as int)
                    &&& final(color).value == level_of_angle(at_white as int)
                    &&& final(color).rgb_follows_hsv()
                    &&& final(color).complements()
                    &&& a == Action::Redraw
                }
                &&& old(self).gesture != Gesture::DraggingTriangle ==> {
                    &&& *final(color) == *old(color)
                    &&& a == Action::Ignore
                }
            },
    {
        match event {
            Event::Press { x, y } => self.press(x, y),
            Event::Move { x, y } => self.pointer_move(x, y),
            Event::Release => {
                self.release();
                Action::Ignore
            },
            Event::DragUpdate { dx, dy } => self.drag_update(dx, dy),
            Event::Bearing { angle } => self.apply_bearing(color, angle),
            Event::CornerAngles { at_white, at_black } => self.apply_corner_angles(
                color,
                at_white,
                at_black,
            ),
        }
    }
}

} // verus!
