use hsv_picker::color::Rgb;
use hsv_picker::geometry::{Point, Triangle};
use hsv_picker::raster::{is_degenerate, shade, Canvas, Corners};

const RED: Rgb = Rgb { red: 65535, green: 0, blue: 0 };
const WHITE: Rgb = Rgb { red: 65535, green: 65535, blue: 65535 };
const BLACK: Rgb = Rgb { red: 0, green: 0, blue: 0 };

fn corners() -> Corners {
    Corners { hue: RED, white: WHITE, black: BLACK }
}

/// The centre of the pixel `(x, y)`.
fn pixel(x: i32, y: i32) -> Point {
    Point { x: 256 * x + 128, y: 256 * y + 128 }
}

/// A triangle whose corners and whose centroid are centres of pixels.
fn small() -> Triangle {
    Triangle { hue: pixel(4, 1), white: pixel(1, 7), black: pixel(7, 7) }
}

fn painted(canvas: &Canvas) -> usize {
    canvas.pixels().iter().filter(|&&word| word != 0).count()
}

fn checksum(canvas: &Canvas) -> u64 {
    canvas.pixels().iter().map(|&word| word as u64).sum::<u64>() % 1000000007
}

#[test]
fn centroid_gets_the_average_of_the_corner_colours() {
    let t = small();
    let centroid = pixel(4, 5);
    // (65535 + 65535 + 0) / 3 is two thirds: 170 of 255; one third is 85.
    assert_eq!(shade(&t, &corners(), centroid.x, centroid.y), Some(0xFFAA5555));
    let big = Triangle {
        hue: Point { x: 64000, y: 5120 },
        white: Point { x: 114992, y: 93440 },
        black: Point { x: 13008, y: 93440 },
    };
    assert_eq!(shade(&big, &corners(), 64000, 64000), Some(0xFFAA5555));
}

#[test]
fn corners_get_their_own_colours() {
    let t = small();
    assert_eq!(shade(&t, &corners(), t.white.x, t.white.y), Some(0xFFFFFFFF));
    assert_eq!(shade(&t, &corners(), t.black.x, t.black.y), Some(0xFF000000));
    assert_eq!(shade(&t, &corners(), t.hue.x, t.hue.y), Some(0xFFFF0000));
    let other = Corners {
        hue: Rgb { red: 1000, green: 20000, blue: 65534 },
        white: Rgb { red: 257, green: 256, blue: 514 },
        black: Rgb { red: 65278, green: 65279, blue: 32768 },
    };
    // 255 * c / 65535, truncated.
    assert_eq!(shade(&t, &other, t.hue.x, t.hue.y), Some(0xFF034DFE));
    assert_eq!(shade(&t, &other, t.white.x, t.white.y), Some(0xFF010002));
    assert_eq!(shade(&t, &other, t.black.x, t.black.y), Some(0xFFFEFE7F));
}

#[test]
fn points_outside_the_triangle_are_not_shaded() {
    let t = small();
    assert_eq!(shade(&t, &corners(), 0, 0), None);
    assert_eq!(shade(&t, &corners(), pixel(3, 2).x, pixel(3, 2).y), None);
    assert_eq!(shade(&t, &corners(), pixel(4, 0).x, pixel(4, 0).y), None);
    assert_eq!(shade(&t, &corners(), i32::MAX, i32::MIN), None);
}

#[test]
fn the_boundary_has_a_slack_of_a_millionth() {
    // A triangle two million units long and one unit high.
    let t = Triangle {
        hue: Point { x: 2000000, y: 0 },
        white: Point { x: 0, y: 0 },
        black: Point { x: 0, y: 1 },
    };
    assert!(!is_degenerate(&t));
    // One and two units beyond the short side the weight of the hue corner
    // is minus a half and minus one millionth.
    assert_eq!(shade(&t, &corners(), -1, 0), Some(0xFFFFFFFF));
    assert_eq!(shade(&t, &corners(), -2, 0), Some(0xFFFFFFFF));
    assert_eq!(shade(&t, &corners(), -3, 0), None);
    assert_eq!(shade(&t, &corners(), 1000000, 0), Some(0xFFFF7F7F));
    assert_eq!(shade(&t, &corners(), 1000000, 1), None);
    // A blend below nothing is cut off at nothing.
    let inverse = Corners { hue: WHITE, white: BLACK, black: BLACK };
    assert_eq!(shade(&t, &inverse, -1, 0), Some(0xFF000000));
    assert_eq!(shade(&t, &inverse, 1000000, 0), Some(0xFF7F7F7F));
}

#[test]
fn a_triangle_without_area_shades_nothing() {
    let line = Triangle {
        hue: Point { x: 0, y: 0 },
        white: Point { x: 256, y: 256 },
        black: Point { x: 512, y: 512 },
    };
    assert!(is_degenerate(&line));
    assert_eq!(shade(&line, &corners(), 256, 256), None);
    let point = Triangle {
        hue: Point { x: 7, y: 7 },
        white: Point { x: 7, y: 7 },
        black: Point { x: 7, y: 7 },
    };
    assert!(is_degenerate(&point));
    assert_eq!(shade(&point, &corners(), 7, 7), None);
    assert!(!is_degenerate(&small()));
}

#[test]
fn a_new_canvas_is_clear() {
    let canvas = Canvas::new(7, 5);
    assert_eq!(canvas.width(), 7);
    assert_eq!(canvas.height(), 5);
    assert_eq!(canvas.pixels().len(), 35);
    assert!(canvas.pixels().iter().all(|&word| word == 0));
    assert_eq!(canvas.get(6, 4), Some(0));
    assert_eq!(canvas.get(7, 4), None);
    assert_eq!(canvas.get(6, 5), None);
}

#[test]
fn fill_paints_what_the_triangle_covers() {
    let mut canvas = Canvas::new(9, 9);
    canvas.fill_triangle(&small(), &corners());
    assert_eq!(canvas.get(4, 5), Some(0xFFAA5555));
    assert_eq!(canvas.get(4, 1), Some(0xFFFF0000));
    assert_eq!(canvas.get(1, 7), Some(0xFFFFFFFF));
    assert_eq!(canvas.get(7, 7), Some(0xFF000000));
    assert_eq!(canvas.get(4, 4), Some(0xFFBF3F3F));
    assert_eq!(canvas.get(3, 3), Some(0xFFFF5555));
    assert_eq!(canvas.get(5, 6), Some(0xFF6A3F3F));
    assert_eq!(canvas.get(2, 6), Some(0xFFE9BFBF));
    assert_eq!(canvas.get(4, 7), Some(0xFF7F7F7F));
    assert_eq!(canvas.get(0, 0), Some(0));
    assert_eq!(canvas.get(8, 8), Some(0));
    assert_eq!(canvas.get(3, 2), Some(0));
    assert_eq!(canvas.get(4, 0), Some(0));
    assert_eq!(painted(&canvas), 25);
    assert_eq!(checksum(&canvas), 229121433);
}

#[test]
fn fill_agrees_with_shade_at_every_pixel() {
    let t = Triangle {
        hue: Point { x: -1000, y: -1000 },
        white: Point { x: 3000, y: 500 },
        black: Point { x: 500, y: 3000 },
    };
    let mut canvas = Canvas::new(8, 8);
    canvas.fill_triangle(&t, &corners());
    for y in 0..8u16 {
        for x in 0..8u16 {
            let at = pixel(x as i32, y as i32);
            let word = shade(&t, &corners(), at.x, at.y).unwrap_or(0);
            assert_eq!(canvas.get(x, y), Some(word));
        }
    }
    assert_eq!(canvas.get(0, 0), Some(0xFFCA3434));
    assert_eq!(canvas.get(7, 0), Some(0xFFFCB9B9));
    assert_eq!(painted(&canvas), 61);
    assert_eq!(checksum(&canvas), 620685738);
}

#[test]
fn fill_does_not_depend_on_the_sense_of_the_corners() {
    let t = small();
    let mirrored = Triangle { hue: t.hue, white: t.black, black: t.white };
    let swapped = Corners { hue: RED, white: BLACK, black: WHITE };
    let mut one = Canvas::new(9, 9);
    one.fill_triangle(&t, &corners());
    let mut other = Canvas::new(9, 9);
    other.fill_triangle(&mirrored, &swapped);
    assert_eq!(one.pixels(), other.pixels());
}

#[test]
fn fill_keeps_what_the_triangle_does_not_cover() {
    let mut canvas = Canvas::new(9, 9);
    canvas.fill_triangle(&small(), &corners());
    let before = canvas.pixels().clone();
    // A second, smaller triangle in other colours.
    let t = Triangle { hue: pixel(1, 1), white: pixel(3, 1), black: pixel(1, 3) };
    let c = Corners { hue: WHITE, white: WHITE, black: WHITE };
    canvas.fill_triangle(&t, &c);
    for y in 0..9u16 {
        for x in 0..9u16 {
            let at = pixel(x as i32, y as i32);
            let i = y as usize * 9 + x as usize;
            match shade(&t, &c, at.x, at.y) {
                Some(word) => assert_eq!(canvas.pixels()[i], word),
                None => assert_eq!(canvas.pixels()[i], before[i]),
            }
        }
    }
    assert_eq!(canvas.get(1, 1), Some(0xFFFFFFFF));
    assert_eq!(canvas.get(4, 5), Some(0xFFAA5555));
}

#[test]
fn degenerate_triangle_leaves_the_canvas_untouched() {
    let mut canvas = Canvas::new(9, 9);
    canvas.fill_triangle(&small(), &corners());
    let before = canvas.pixels().clone();
    let line = Triangle { hue: pixel(0, 0), white: pixel(4, 4), black: pixel(8, 8) };
    canvas.fill_triangle(&line, &Corners { hue: WHITE, white: WHITE, black: WHITE });
    assert_eq!(canvas.pixels(), &before);
    let mut clear = Canvas::new(9, 9);
    clear.fill_triangle(&line, &corners());
    assert_eq!(painted(&clear), 0);
    let flat = Triangle { hue: pixel(0, 3), white: pixel(5, 3), black: pixel(8, 3) };
    clear.fill_triangle(&flat, &corners());
    assert_eq!(painted(&clear), 0);
}

#[test]
fn a_triangle_beside_the_canvas_paints_nothing() {
    let t = Triangle {
        hue: Point { x: -5000, y: -5000 },
        white: Point { x: -3000, y: -4000 },
        black: Point { x: -4000, y: -3000 },
    };
    let mut canvas = Canvas::new(8, 8);
    canvas.fill_triangle(&t, &corners());
    assert_eq!(painted(&canvas), 0);
    let far = Triangle {
        hue: Point { x: i32::MAX, y: i32::MAX },
        white: Point { x: i32::MAX - 1000, y: i32::MAX },
        black: Point { x: i32::MAX, y: i32::MAX - 1000 },
    };
    canvas.fill_triangle(&far, &corners());
    assert_eq!(painted(&canvas), 0);
}

#[test]
fn a_canvas_without_pixels_takes_a_fill() {
    let mut empty = Canvas::new(0, 0);
    empty.fill_triangle(&small(), &corners());
    assert_eq!(empty.pixels().len(), 0);
    let mut narrow = Canvas::new(0, 9);
    narrow.fill_triangle(&small(), &corners());
    assert_eq!(narrow.pixels().len(), 0);
    assert_eq!(narrow.get(0, 0), None);
}

#[test]
fn a_triangle_larger_than_the_canvas_fills_it() {
    let t = Triangle {
        hue: Point { x: i32::MIN, y: i32::MIN },
        white: Point { x: i32::MAX, y: i32::MIN },
        black: Point { x: i32::MIN, y: i32::MAX },
    };
    let mut canvas = Canvas::new(5, 4);
    canvas.fill_triangle(&t, &Corners { hue: WHITE, white: WHITE, black: WHITE });
    assert_eq!(painted(&canvas), 20);
    assert!(canvas.pixels().iter().all(|&word| word == 0xFFFFFFFF));
}
