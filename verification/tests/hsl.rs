use pixel_color::{ARGB, HSL};

fn float_hsl(rgb: ARGB) -> (f32, f32, f32) {
    let r: f32 = f32::from(rgb.r) / 255.0;
    let g: f32 = f32::from(rgb.g) / 255.0;
    let b: f32 = f32::from(rgb.b) / 255.0;
    let max = r.max(g).max(b);
    let min = r.min(g).min(b);
    let mut h: f32 = 0.0;
    let mut s: f32 = 0.0;
    let l = ((max + min) / 2.0 * 100.0).round();
    if max != min {
        let delta = max - min;
        s = if l > 50.0 {
            (delta / (2.0 - max - min)) * 100.0
        } else {
            (delta / (max + min)) * 100.0
        };
        if max == r {
            h = (g - b) / delta + if g < b { 6.0 } else { 0.0 };
        } else if max == g {
            h = (b - r) / delta + 2.0
        } else if max == b {
            h = (r - g) / delta + 4.0
        }
        h = (h * 60.0).round();
        s = s.round();
    }
    (h, s, l)
}

#[test]
fn test_hsl() {
    let rgb_white = ARGB::new(0xff, 0xff, 0xff, 0xff);
    assert_eq!(HSL::from_rgb(rgb_white), HSL { h: 0, s: 0, l: 100 });

    let rgb_red = ARGB::new(0xff, 0xff, 0, 0);
    assert_eq!(HSL::from_rgb(rgb_red), HSL { h: 0, s: 100, l: 50 });

    let rgb_green = ARGB::new(0xff, 0, 0xff, 0);
    assert_eq!(HSL::from_rgb(rgb_green), HSL { h: 120, s: 100, l: 50 });

    let rgb_blue = ARGB::new(0xff, 0, 0, 0xff);
    assert_eq!(HSL::from_rgb(rgb_blue), HSL { h: 240, s: 100, l: 50 });

    let rgb_yellow = ARGB::new(0xff, 0xff, 0xff, 0);
    assert_eq!(HSL::from_rgb(rgb_yellow), HSL { h: 60, s: 100, l: 50 });

    let rgb_cyan = ARGB::new(0xff, 14, 115, 123);
    assert_eq!(HSL::from_rgb(rgb_cyan), HSL { h: 184, s: 80, l: 27 });
}

#[test]
fn hsl_well_known_colors_as_floats() {
    let cases = [
        ((255u8, 255u8, 255u8), (0.0f32, 0.0f32, 100.0f32)),
        ((255, 0, 0), (0.0, 100.0, 50.0)),
        ((0, 255, 0), (120.0, 100.0, 50.0)),
        ((0, 0, 255), (240.0, 100.0, 50.0)),
        ((255, 255, 0), (60.0, 100.0, 50.0)),
        ((14, 115, 123), (184.0, 80.0, 27.0)),
    ];
    for ((r, g, b), (h, s, l)) in cases {
        let hsl = HSL::from_rgb(ARGB::new(0xff, r, g, b));
        assert_eq!(f32::from(hsl.h), h);
        assert_eq!(f32::from(hsl.s), s);
        assert_eq!(f32::from(hsl.l), l);
    }
}

#[test]
fn hsl_of_greys() {
    assert_eq!(HSL::from_rgb(ARGB::black()), HSL { h: 0, s: 0, l: 0 });
    assert_eq!(HSL::from_rgb(ARGB::new(0xff, 128, 128, 128)), HSL { h: 0, s: 0, l: 50 });
    assert_eq!(HSL::from_rgb(ARGB::new(0xff, 127, 127, 127)), HSL { h: 0, s: 0, l: 50 });
    assert_eq!(HSL::from_rgb(ARGB::new(0xff, 1, 1, 1)), HSL { h: 0, s: 0, l: 0 });
    assert_eq!(HSL::from_rgb(ARGB::new(0xff, 2, 2, 2)), HSL { h: 0, s: 0, l: 1 });
    assert_eq!(HSL::from_rgb(ARGB::new(0xff, 254, 254, 254)), HSL { h: 0, s: 0, l: 100 });
    for v in 0..=255u8 {
        let hsl = HSL::from_rgb(ARGB::new(0xff, v, v, v));
        assert_eq!(hsl.h, 0);
        assert_eq!(hsl.s, 0);
    }
}

#[test]
fn hsl_leaves_alpha_out() {
    for a in [0u8, 1, 127, 255] {
        assert_eq!(HSL::from_rgb(ARGB::new(a, 14, 115, 123)), HSL { h: 184, s: 80, l: 27 });
    }
}

#[test]
fn hsl_secondary_colors() {
    assert_eq!(HSL::from_rgb(ARGB::new(0xff, 0, 255, 255)), HSL { h: 180, s: 100, l: 50 });
    assert_eq!(HSL::from_rgb(ARGB::new(0xff, 255, 0, 255)), HSL { h: 300, s: 100, l: 50 });
    assert_eq!(HSL::from_rgb(ARGB::new(0xff, 128, 0, 0)), HSL { h: 0, s: 100, l: 25 });
    assert_eq!(HSL::from_rgb(ARGB::new(0xff, 255, 128, 128)), HSL { h: 0, s: 100, l: 75 });
}

#[test]
fn hsl_shared_largest_channel() {
    // Red and green both largest, green and blue both largest, blue and red.
    assert_eq!(HSL::from_rgb(ARGB::new(0xff, 200, 200, 100)), HSL { h: 60, s: 48, l: 59 });
    assert_eq!(HSL::from_rgb(ARGB::new(0xff, 100, 200, 200)), HSL { h: 180, s: 48, l: 59 });
    assert_eq!(HSL::from_rgb(ARGB::new(0xff, 200, 100, 200)), HSL { h: 300, s: 48, l: 59 });
}

#[test]
fn hsl_hue_reaches_the_full_turn() {
    assert_eq!(HSL::from_rgb(ARGB::new(0xff, 255, 0, 1)), HSL { h: 360, s: 100, l: 50 });
    assert_eq!(HSL::from_rgb(ARGB::new(0xff, 120, 0, 1)), HSL { h: 360, s: 100, l: 24 });
    assert_eq!(HSL::from_rgb(ARGB::new(0xff, 119, 0, 1)), HSL { h: 359, s: 100, l: 23 });
    assert_eq!(HSL::from_rgb(ARGB::new(0xff, 255, 0, 2)), HSL { h: 360, s: 100, l: 50 });
    assert_eq!(HSL::from_rgb(ARGB::new(0xff, 255, 0, 3)), HSL { h: 359, s: 100, l: 50 });
    assert_eq!(f32::from(HSL::from_rgb(ARGB::new(0xff, 255, 0, 1)).h), float_hsl(ARGB::new(0xff, 255, 0, 1)).0);
}

#[test]
fn hsl_halves_round_up() {
    // Saturation 100 * 14 / 16 = 87.5, hue 60 * 4 = 240.
    assert_eq!(HSL::from_rgb(ARGB::new(0xff, 1, 1, 15)), HSL { h: 240, s: 88, l: 3 });
    // Hue 60 * (4 - 1 / 8) = 232.5.
    assert_eq!(HSL::from_rgb(ARGB::new(0xff, 0, 1, 8)), HSL { h: 233, s: 100, l: 2 });
    // Saturation 100 * 2 / 16 = 12.5.
    assert_eq!(HSL::from_rgb(ARGB::new(0xff, 9, 7, 7)), HSL { h: 0, s: 13, l: 3 });
}

#[test]
fn hsl_saturation_goes_by_the_rounded_lightness() {
    // The channels add up to 256 or 257: above half, yet 50 percent.
    assert_eq!(HSL::from_rgb(ARGB::new(0xff, 255, 100, 1)), HSL { h: 23, s: 99, l: 50 });
    assert_eq!(HSL::from_rgb(ARGB::new(0xff, 255, 100, 2)), HSL { h: 23, s: 98, l: 50 });
    // From 258 on the lightness is 51 percent.
    assert_eq!(HSL::from_rgb(ARGB::new(0xff, 255, 100, 3)), HSL { h: 23, s: 100, l: 51 });
    assert_eq!(HSL::from_rgb(ARGB::new(0xff, 255, 100, 0)), HSL { h: 24, s: 100, l: 50 });
}

#[test]
fn hsl_stays_in_range_for_every_color() {
    let mut full_turns: u32 = 0;
    for r in 0..=255u8 {
        for g in 0..=255u8 {
            for b in 0..=255u8 {
                let hsl = HSL::from_rgb(ARGB::new(0xff, r, g, b));
                assert!(hsl.h <= 360 && hsl.s <= 100 && hsl.l <= 100, "({}, {}, {})", r, g, b);
                if hsl.h == 360 {
                    full_turns += 1;
                    assert!(r > b && b > g && 120 * (b as u32 - g as u32) <= (r as u32 - g as u32));
                }
            }
        }
    }
    assert!(full_turns > 0);
}

#[test]
fn hsl_agrees_with_the_float_formula_but_for_halves() {
    // Where the exact value of a formula is half-way between two whole
    // numbers, floating point may land just below it and round down.
    let mut halves_up: u32 = 0;
    let mut halves_down: u32 = 0;
    for r in 0..=255u8 {
        for g in 0..=255u8 {
            for b in 0..=255u8 {
                let c = ARGB::new(0xff, r, g, b);
                let (h, s, l) = float_hsl(c);
                let got = HSL::from_rgb(c);
                assert_eq!(f32::from(got.l), l, "lightness of ({}, {}, {})", r, g, b);
                let hi = i32::from(r.max(g).max(b));
                let lo = i32::from(r.min(g).min(b));
                if hi == lo {
                    assert_eq!((f32::from(got.h), f32::from(got.s)), (h, s));
                    continue;
                }
                let chroma = hi - lo;
                let divisor = if got.l > 50 { 510 - hi - lo } else { hi + lo };
                let position = if hi == i32::from(r) {
                    i32::from(g) - i32::from(b) + if g < b { 6 * chroma } else { 0 }
                } else if hi == i32::from(g) {
                    i32::from(b) - i32::from(r) + 2 * chroma
                } else {
                    i32::from(r) - i32::from(g) + 4 * chroma
                };
                let s_half = (200 * chroma) % (2 * divisor) == divisor;
                let h_half = (120 * position) % (2 * chroma) == chroma;
                if f32::from(got.s) != s {
                    assert!(s_half && f32::from(got.s) == s + 1.0, "saturation of ({}, {}, {})", r, g, b);
                    halves_down += 1;
                } else if s_half {
                    halves_up += 1;
                }
                if f32::from(got.h) != h {
                    assert!(h_half && f32::from(got.h) == h + 1.0, "hue of ({}, {}, {})", r, g, b);
                    halves_down += 1;
                } else if h_half {
                    halves_up += 1;
                }
            }
        }
    }
    assert!(halves_up > halves_down);
}
