use hsv_picker::color::Rgb;
use hsv_picker::ring::{ring_segment, ring_segments, RingSegment};

#[test]
fn the_ring_has_360_segments() {
    assert_eq!(ring_segments().len(), 360);
}

#[test]
fn the_first_segment_is_red_and_points_up() {
    let first = ring_segments()[0];
    assert_eq!(
        first,
        RingSegment {
            start: -90286479,
            end: -89000000,
            color: Rgb { red: 65535, green: 0, blue: 0 },
        }
    );
}

#[test]
fn segments_carry_the_pure_colour_of_their_degree() {
    let ring = ring_segments();
    assert_eq!(ring[1].color, Rgb { red: 65535, green: 1092, blue: 0 });
    assert_eq!(ring[60].color, Rgb { red: 65535, green: 65532, blue: 0 });
    assert_eq!(ring[90].color, Rgb { red: 32772, green: 65535, blue: 0 });
    assert_eq!(ring[120].color, Rgb { red: 0, green: 65535, blue: 0 });
    assert_eq!(ring[180].color, Rgb { red: 0, green: 65535, blue: 65532 });
    assert_eq!(ring[240].color, Rgb { red: 0, green: 0, blue: 65535 });
    assert_eq!(ring[300].color, Rgb { red: 65532, green: 0, blue: 65535 });
    assert_eq!(ring[359].color, Rgb { red: 65535, green: 0, blue: 1098 });
}

#[test]
fn every_segment_is_fully_saturated_and_full_in_value() {
    for s in ring_segments() {
        let c = s.color;
        assert_eq!(c.red.max(c.green).max(c.blue), 65535);
        assert_eq!(c.red.min(c.green).min(c.blue), 0);
    }
}

#[test]
fn each_segment_spans_a_degree_and_overlaps_the_one_before() {
    let ring = ring_segments();
    for i in 0..360usize {
        assert_eq!(ring[i].end - ring[i].start, 1286479);
        assert_eq!(ring[i].end, (i as i64 + 1) * 1000000 - 90000000);
    }
    for i in 1..360usize {
        assert_eq!(ring[i - 1].end - ring[i].start, 286479);
    }
    assert_eq!(ring[90].start, -286479);
    assert_eq!(ring[359].end, 270000000);
}

#[test]
fn ring_segment_gives_the_segments_one_by_one() {
    let ring = ring_segments();
    for i in 0..360u16 {
        assert_eq!(ring_segment(i), Some(ring[i as usize]));
    }
    assert_eq!(ring_segment(360), None);
    assert_eq!(ring_segment(65535), None);
}
