//! The hue ring: 360 arcs of one degree, each in the pure colour of its hue.
//!
//! The ring is drawn on the circle of `ring_radius` round the centre of the
//! canvas, with a stroke of twice `RING_THICKNESS`. Hue 0 points straight up and
//! the hues follow clockwise.

use crate::color::{blue_of, green_of, hsv_to_rgb, max3, min3, red_of, sector, Rgb, CHANNEL_MAX};
use vstd::prelude::*;

verus! {

/// The number of arcs that make up the ring.
pub const RING_SEGMENTS: u16 = 360;

/// The angle of one arc in micro-degrees.
pub const SEGMENT_ANGLE: i64 = 1000000;

/// By how much an arc begins before its place, in micro-degrees, so that no
/// seam shows between it and the arc before.
pub const SEGMENT_OVERLAP: i64 = 286479;

/// One arc of the ring: the angles at which it begins and ends, in
/// micro-degrees from the x axis, clockwise on the screen, and its colour.
#[derive(Debug, Clone, Copy, PartialEq, Eq, Structural)]
pub struct RingSegment {
    pub start: i64,
    pub end: i64,
    pub color: Rgb,
}

/// The hue of the arc with index `i`: `i` degrees of the full turn, scaled to
/// a channel and truncated.
pub open spec fn segment_hue(i: int) -> int {
    i * 65535 / 360
}

/// The arc with index `i`. It begins `i` degrees after straight up, less the
/// overlap, and ends one degree further on; its colour has the hue of `i`
/// degrees at full saturation and full value.
pub open spec fn segment_of(i: int) -> RingSegment {
    RingSegment {
        start: (i * 1000000 - 90000000 - 286479) as i64,
        end: ((i + 1) * 1000000 - 90000000) as i64,
        color: Rgb {
            red: red_of(segment_hue(i), 65535, 65535) as u16,
            green: green_of(segment_hue(i), 65535, 65535) as u16,
            blue: blue_of(segment_hue(i), 65535, 65535) as u16,
        },
    }
}

/// Computes the arc with index `i`; there is none from 360 on.
pub fn ring_segment(i: u16) -> (r: Option<RingSegment>)
    ensures
        r == (if i < 360 {
            Some(segment_of(i as int))
        } else {
            None
        }),
{
    if i >= RING_SEGMENTS {
        return None;
    }
    let hue: u16 = ((i as u32) * 65535 / 360) as u16;
    let first: i64 = (i as i64) * SEGMENT_ANGLE - 90000000;
    Some(
        RingSegment {
            start: first - SEGMENT_OVERLAP,
            end: first + SEGMENT_ANGLE,
            color: hsv_to_rgb(hue, CHANNEL_MAX, CHANNEL_MAX),
        },
    )
}

/// Computes the arcs of the ring in the order in which they are drawn.
pub fn ring_segments() -> (v: Vec<RingSegment>)
    ensures
        v@.len() == 360,
        forall|i: int| 0 <= i < 360 ==> #[trigger] v@[i] == segment_of(i),
{
    let mut v: Vec<RingSegment> = Vec::new();
    let mut i: u16 = 0;
    while i < RING_SEGMENTS
        invariant
            i <= 360,
            v@.len() == i,
            forall|j: int| 0 <= j < i ==> #[trigger] v@[j] == segment_of(j),
        decreases 360 - i,
    {
        match ring_segment(i) {
            Some(segment) => {
                v.push(segment);
            },
            None => {},
        }
        i += 1;
    }
    v
}

/// Every colour of the ring is pure: one of its channels is full and one is
/// empty. The first arc is red.
pub proof fn lemma_ring_colors_are_pure(i: int)
    requires
        0 <= i < 360,
    ensures
        ({
            let c = segment_of(i).color;
            &&& max3(c.red as int, c.green as int, c.blue as int) == 65535
            &&& min3(c.red as int, c.green as int, c.blue as int) == 0
        }),
        segment_of(0).color == (Rgb { red: 65535, green: 0, blue: 0 }),
{
    let h = segment_hue(i);
    assert(0 <= h < 65535);
    assert(0 <= sector(h) <= 5);
    crate::color::lemma_low_channel_bounds(65535, 65535);
    crate::color::lemma_mid_channel_bounds(h, 65535, 65535);
    crate::color::lemma_hue_wraps(65535, 65535);
}

} // verus!
