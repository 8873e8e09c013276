use hsv_picker::color::{hsv_to_rgb, rgb_to_hsv, Color, Hsv, Rgb, CHANNEL_MAX};

/// A spread of channel values that takes in both ends, the sector borders of
/// the hue and a few values in between.
fn samples() -> Vec<u16> {
    vec![0, 1, 2, 3, 5, 6, 7, 255, 256, 1000, 10922, 10923, 21845, 32767, 32768, 43690, 54612,
         54613, 60000, 65529, 65530, 65533, 65534, 65535]
}

fn apart(a: u16, b: u16) -> u16 {
    if a >= b { a - b } else { b - a }
}

#[test]
fn new_color_is_black() {
    let c = Color::new();
    assert_eq!((c.red, c.green, c.blue), (0, 0, 0));
    assert_eq!((c.cyan, c.magenta, c.yellow), (65535, 65535, 65535));
    assert_eq!((c.hue, c.saturation, c.value), (0, 0, 0));
}

#[test]
fn set_rgb_writes_the_channels_and_their_complements() {
    for &r in &samples() {
        for &g in &samples() {
            for &b in &samples() {
                let mut c = Color::new();
                c.set_rgb(r, g, b);
                assert_eq!((c.red, c.green, c.blue), (r, g, b));
                assert_eq!(c.cyan, CHANNEL_MAX - r);
                assert_eq!(c.magenta, CHANNEL_MAX - g);
                assert_eq!(c.yellow, CHANNEL_MAX - b);
            }
        }
    }
}

#[test]
fn set_hsv_writes_the_complements_of_what_it_derives() {
    for &h in &samples() {
        for &s in &samples() {
            for &v in &samples() {
                let mut c = Color::new();
                c.set_hsv(h, s, v);
                assert_eq!((c.hue, c.saturation, c.value), (h, s, v));
                assert_eq!(c.cyan, CHANNEL_MAX - c.red);
                assert_eq!(c.magenta, CHANNEL_MAX - c.green);
                assert_eq!(c.yellow, CHANNEL_MAX - c.blue);
            }
        }
    }
}

#[test]
fn set_rgb_derives_value_saturation_and_hue() {
    let mut c = Color::new();
    c.set_rgb(1000, 2000, 3000);
    assert_eq!((c.hue, c.saturation, c.value), (38228, 43690, 3000));
    c.set_rgb(65535, 32768, 0);
    assert_eq!((c.hue, c.saturation, c.value), (5461, 65535, 65535));
    c.set_rgb(12, 34, 56);
    assert_eq!((c.hue, c.saturation, c.value), (38228, 51491, 56));
    c.set_rgb(40000, 10000, 39999);
    assert_eq!((c.hue, c.saturation, c.value), (54612, 49151, 40000));
}

#[test]
fn set_rgb_of_the_primaries() {
    let mut c = Color::new();
    c.set_rgb(65535, 0, 0);
    assert_eq!((c.hue, c.saturation, c.value), (0, 65535, 65535));
    c.set_rgb(0, 65535, 0);
    assert_eq!((c.hue, c.saturation, c.value), (21845, 65535, 65535));
    c.set_rgb(0, 0, 65535);
    assert_eq!((c.hue, c.saturation, c.value), (43690, 65535, 65535));
}

#[test]
fn set_rgb_of_black_and_of_a_gray_has_no_hue_and_no_saturation() {
    let mut c = Color::new();
    c.set_rgb(0, 0, 0);
    assert_eq!((c.hue, c.saturation, c.value), (0, 0, 0));
    c.set_rgb(777, 777, 777);
    assert_eq!((c.hue, c.saturation, c.value), (0, 0, 777));
}

#[test]
fn set_hsv_derives_the_additive_channels() {
    let mut c = Color::new();
    c.set_hsv(10922, 32768, 40000);
    assert_eq!((c.red, c.green, c.blue), (40000, 39999, 19999));
    c.set_hsv(30000, 50000, 60000);
    assert_eq!((c.red, c.green, c.blue), (14222, 60000, 48401));
    c.set_hsv(54612, 20000, 1234);
    assert_eq!((c.red, c.green, c.blue), (1233, 857, 1234));
    c.set_hsv(16383, 65535, 65535);
    assert_eq!((c.red, c.green, c.blue), (32772, 65535, 0));
}

#[test]
fn round_trip_stays_within_six_units() {
    for &r in &samples() {
        for &g in &samples() {
            for &b in &samples() {
                let mut c = Color::new();
                c.set_rgb(r, g, b);
                let (h, s, v) = (c.hue, c.saturation, c.value);
                c.set_hsv(h, s, v);
                assert!(apart(c.red, r) <= 6, "red of {} {} {}", r, g, b);
                assert!(apart(c.green, g) <= 6, "green of {} {} {}", r, g, b);
                assert!(apart(c.blue, b) <= 6, "blue of {} {} {}", r, g, b);
            }
        }
    }
}

#[test]
fn round_trip_can_cost_six_units() {
    let mut c = Color::new();
    c.set_rgb(0, 65530, 54613);
    assert_eq!((c.hue, c.saturation, c.value), (30947, 65535, 65530));
    let (h, s, v) = (c.hue, c.saturation, c.value);
    c.set_hsv(h, s, v);
    assert_eq!((c.red, c.green, c.blue), (0, 65530, 54607));
}

#[test]
fn round_trip_of_a_gray_is_exact() {
    for &v in &samples() {
        let mut c = Color::new();
        c.set_rgb(v, v, v);
        let (h, s, val) = (c.hue, c.saturation, c.value);
        c.set_hsv(h, s, val);
        assert_eq!((c.red, c.green, c.blue), (v, v, v));
    }
}

#[test]
fn zero_saturation_gives_a_gray_of_the_value() {
    for &h in &samples() {
        for &v in &samples() {
            let mut c = Color::new();
            c.set_hsv(h, 0, v);
            assert_eq!((c.red, c.green, c.blue), (v, v, v));
        }
    }
}

#[test]
fn zero_value_gives_black() {
    for &h in &samples() {
        for &s in &samples() {
            let mut c = Color::new();
            c.set_hsv(h, s, 0);
            assert_eq!((c.red, c.green, c.blue), (0, 0, 0));
        }
    }
}

#[test]
fn hue_wraps_at_the_red_corner() {
    let mut first = Color::new();
    first.set_hsv(0, 65535, 65535);
    let mut last = Color::new();
    last.set_hsv(65535, 65535, 65535);
    assert_eq!((first.red, first.green, first.blue), (65535, 0, 0));
    assert_eq!((last.red, last.green, last.blue), (65535, 0, 0));
}

#[test]
fn hue_wraps_at_every_saturation_and_value() {
    for &s in &samples() {
        for &v in &samples() {
            assert_eq!(hsv_to_rgb(0, s, v), hsv_to_rgb(65535, s, v));
        }
    }
}

#[test]
fn set_hue_keeps_saturation_and_value_and_derives_the_rest() {
    let mut c = Color::new();
    c.set_hsv(10922, 32768, 40000);
    c.set_hue(30000);
    assert_eq!((c.hue, c.saturation, c.value), (30000, 32768, 40000));
    let mut d = Color::new();
    d.set_hsv(30000, 32768, 40000);
    assert_eq!((c.red, c.green, c.blue), (d.red, d.green, d.blue));
    assert_eq!((c.cyan, c.magenta, c.yellow), (d.cyan, d.magenta, d.yellow));
    assert_eq!(c.cyan, CHANNEL_MAX - c.red);
}

#[test]
fn conversions_agree_with_the_setters() {
    let mut c = Color::new();
    c.set_rgb(40000, 10000, 39999);
    assert_eq!(rgb_to_hsv(40000, 10000, 39999), Hsv { hue: 54612, saturation: 49151, value: 40000 });
    assert_eq!(c.hsv(), Hsv { hue: 54612, saturation: 49151, value: 40000 });
    c.set_hsv(30000, 50000, 60000);
    assert_eq!(hsv_to_rgb(30000, 50000, 60000), Rgb { red: 14222, green: 60000, blue: 48401 });
    assert_eq!(c.rgb(), Rgb { red: 14222, green: 60000, blue: 48401 });
}

/// A sequence of numbers that looks random and is the same on every run.
fn next(seed: &mut u64) -> u16 {
    *seed = seed.wrapping_mul(6364136223846793005).wrapping_add(1442695040888963407);
    (*seed >> 40) as u16
}

#[test]
fn round_trip_holds_on_many_colours() {
    let mut seed = 7;
    for _ in 0..200000 {
        let (r, g, b) = (next(&mut seed), next(&mut seed), next(&mut seed));
        let hsv = rgb_to_hsv(r, g, b);
        let back = hsv_to_rgb(hsv.hue, hsv.saturation, hsv.value);
        assert!(apart(back.red, r) <= 6 && apart(back.green, g) <= 6 && apart(back.blue, b) <= 6);
        assert_eq!(back.red.max(back.green).max(back.blue), r.max(g).max(b));
    }
}

/// Hue, saturation and value to RGB in floating point, by the textbook.
fn real_rgb(hue: u16, saturation: u16, value: u16) -> (f64, f64, f64) {
    let h = hue as f64 * 6.0 / 65535.0;
    let s = saturation as f64 / 65535.0;
    let v = value as f64 / 65535.0;
    let c = v * s;
    let x = c * (1.0 - ((h % 2.0) - 1.0).abs());
    let m = v - c;
    let (r, g, b) = if h < 1.0 {
        (c, x, 0.0)
    } else if h < 2.0 {
        (x, c, 0.0)
    } else if h < 3.0 {
        (0.0, c, x)
    } else if h < 4.0 {
        (0.0, x, c)
    } else if h < 5.0 {
        (x, 0.0, c)
    } else {
        (c, 0.0, x)
    };
    ((r + m) * 65535.0, (g + m) * 65535.0, (b + m) * 65535.0)
}

/// Whether `n` is the real number `x` truncated, give or take the rounding of
/// the floating-point computation.
fn truncates(n: u16, x: f64) -> bool {
    (n as f64) <= x + 1e-6 && x - 1e-6 < (n as f64) + 1.0
}

#[test]
fn set_hsv_is_the_real_transform_truncated() {
    let mut seed = 11;
    for _ in 0..200000 {
        let (h, s, v) = (next(&mut seed), next(&mut seed), next(&mut seed));
        let (r, g, b) = real_rgb(h, s, v);
        let c = hsv_to_rgb(h, s, v);
        assert!(truncates(c.red, r), "red of {} {} {}: {} against {}", h, s, v, c.red, r);
        assert!(truncates(c.green, g), "green of {} {} {}: {} against {}", h, s, v, c.green, g);
        assert!(truncates(c.blue, b), "blue of {} {} {}: {} against {}", h, s, v, c.blue, b);
    }
}

#[test]
fn set_rgb_is_the_real_transform_truncated() {
    let mut seed = 13;
    for _ in 0..200000 {
        let (r, g, b) = (next(&mut seed), next(&mut seed), next(&mut seed));
        let max = r.max(g).max(b) as f64;
        let min = r.min(g).min(b) as f64;
        let delta = max - min;
        let (rf, gf, bf) = (r as f64, g as f64, b as f64);
        let mut h = if delta == 0.0 {
            0.0
        } else if max == rf {
            (gf - bf) / delta
        } else if max == gf {
            (bf - rf) / delta + 2.0
        } else {
            (rf - gf) / delta + 4.0
        };
        if h < 0.0 {
            h += 6.0;
        }
        let hsv = rgb_to_hsv(r, g, b);
        assert!(truncates(hsv.hue, h * 65535.0 / 6.0), "hue of {} {} {}", r, g, b);
        let s = if max == 0.0 { 0.0 } else { delta * 65535.0 / max };
        assert!(truncates(hsv.saturation, s), "saturation of {} {} {}", r, g, b);
        assert_eq!(hsv.value as f64, max);
    }
}
