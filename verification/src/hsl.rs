//! Hue, saturation and lightness of a colour, in whole degrees and percent.
//!
//! Each of the three is a quotient of whole numbers, rounded once, to the
//! nearest whole number; a quotient half-way between two whole numbers goes
//! up. Nothing is rounded before that, so no error builds up on the way.

use vstd::prelude::*;
use crate::argb::ARGB;
use crate::arith::{
    is_nearest,
    lemma_round_div_is_nearest,
    lemma_round_div_lower,
    lemma_round_div_upper,
    round_div,
};

verus! {

/// Hue in degrees, saturation and lightness in percent.
///
/// A value of this type is only ever made from a colour, by
/// [`HSL::from_rgb`].
#[derive(Clone, Copy, Debug, PartialEq, Eq, Structural)]
pub struct HSL {
    pub h: u16,
    pub s: u8,
    pub l: u8,
}

/// The largest of the red, green and blue channels.
pub open spec fn brightest(c: ARGB) -> int {
    if c.r >= c.g && c.r >= c.b {
        c.r as int
    } else if c.g >= c.b {
        c.g as int
    } else {
        c.b as int
    }
}

/// The smallest of the red, green and blue channels.
pub open spec fn dimmest(c: ARGB) -> int {
    if c.r <= c.g && c.r <= c.b {
        c.r as int
    } else if c.g <= c.b {
        c.g as int
    } else {
        c.b as int
    }
}

/// The difference between the largest and the smallest channel. It is zero
/// exactly for the greys.
pub open spec fn chroma(c: ARGB) -> int {
    brightest(c) - dimmest(c)
}

/// Lightness in percent, rounded to the nearest whole percent: the mean of
/// the largest and the smallest channel, as a share of the full scale of
/// 255. That is `100 * ((max + min) / 2) / 255`.
pub open spec fn lightness(c: ARGB) -> int {
    round_div(100 * (brightest(c) + dimmest(c)), 510)
}

/// What the chroma is divided by to give the saturation: `max + min` for a
/// colour in the darker half and `2 * 255 - max - min` for one in the
/// lighter half. A colour counts as lighter when its lightness after
/// rounding is above 50 percent; see [`lemma_lightness_above_half`].
pub open spec fn saturation_divisor(c: ARGB) -> int {
    if lightness(c) > 50 {
        510 - brightest(c) - dimmest(c)
    } else {
        brightest(c) + dimmest(c)
    }
}

/// Saturation in percent, rounded to the nearest whole percent: the chroma
/// as a share of its divisor. A grey has none.
pub open spec fn saturation(c: ARGB) -> int {
    if chroma(c) == 0 {
        0
    } else {
        round_div(100 * chroma(c), saturation_divisor(c))
    }
}

/// The place of a colour on the colour wheel, as a count of sixths of a
/// turn multiplied by the chroma. Red is at 0, green at 2 and blue at 4
/// sixths, and a colour lies at most one sixth from its largest channel, on
/// the side of the larger of the other two: `(g - b) / chroma` from red,
/// `(b - r) / chroma` from green, `(r - g) / chroma` from blue. Below red
/// the count starts again from 6. Where two channels are both the largest,
/// red goes before green and green before blue.
pub open spec fn wheel_position(c: ARGB) -> int {
    let d = chroma(c);
    if brightest(c) == c.r {
        if c.g < c.b {
            6 * d + (c.g - c.b)
        } else {
            c.g - c.b
        }
    } else if brightest(c) == c.g {
        2 * d + (c.b - c.r)
    } else {
        4 * d + (c.r - c.g)
    }
}

/// Hue in degrees, rounded to the nearest whole degree: 60 degrees to each
/// sixth of a turn. A grey has hue 0.
pub open spec fn hue(c: ARGB) -> int {
    if chroma(c) == 0 {
        0
    } else {
        round_div(60 * wheel_position(c), chroma(c))
    }
}

/// The saturation divisor is positive, and at least the chroma, for every
/// colour that is not a grey.
pub proof fn lemma_saturation_divisor_bounds(c: ARGB)
    requires
        chroma(c) > 0,
    ensures
        0 < chroma(c) <= saturation_divisor(c) <= 509,
{
}

/// The wheel position of a colour that is not a grey lies between 0 and six
/// times the chroma, the upper end left out.
pub proof fn lemma_wheel_position_bounds(c: ARGB)
    requires
        chroma(c) > 0,
    ensures
        0 <= wheel_position(c) < 6 * chroma(c),
{
}

/// Lightness and saturation are percentages, and hue is a whole number of
/// degrees up to a full turn. The full turn itself is reached: see
/// [`lemma_hue_full_turn`].
pub proof fn lemma_hsl_ranges(c: ARGB)
    ensures
        0 <= hue(c) <= 360,
        0 <= saturation(c) <= 100,
        0 <= lightness(c) <= 100,
{
    let sum = brightest(c) + dimmest(c);
    lemma_round_div_lower(100 * sum, 510, 0);
    lemma_round_div_upper(100 * sum, 510, 100);
    if chroma(c) > 0 {
        lemma_saturation_divisor_bounds(c);
        lemma_wheel_position_bounds(c);
        lemma_round_div_lower(100 * chroma(c), saturation_divisor(c), 0);
        lemma_round_div_upper(100 * chroma(c), saturation_divisor(c), 100);
        lemma_round_div_lower(60 * wheel_position(c), chroma(c), 0);
        lemma_round_div_upper(60 * wheel_position(c), chroma(c), 360);
    }
}

/// Each of the three numbers is the whole number nearest to the exact value
/// of its formula, a value half-way between two whole numbers going up:
/// lightness to `100 * (max + min) / 510`, saturation to `100 * chroma`
/// over its divisor, and hue to `60 * wheel position / chroma`.
pub proof fn lemma_hsl_nearest(c: ARGB)
    ensures
        is_nearest(lightness(c), 100 * (brightest(c) + dimmest(c)), 510),
        chroma(c) > 0 ==> is_nearest(saturation(c), 100 * chroma(c), saturation_divisor(c)),
        chroma(c) > 0 ==> is_nearest(hue(c), 60 * wheel_position(c), chroma(c)),
{
    lemma_round_div_is_nearest(100 * (brightest(c) + dimmest(c)), 510);
    if chroma(c) > 0 {
        lemma_saturation_divisor_bounds(c);
        lemma_round_div_is_nearest(100 * chroma(c), saturation_divisor(c));
        lemma_round_div_is_nearest(60 * wheel_position(c), chroma(c));
    }
}

/// A grey, whose red, green and blue are equal, has hue 0 and saturation 0.
pub proof fn lemma_grey(c: ARGB)
    requires
        c.r == c.g,
        c.g == c.b,
    ensures
        hue(c) == 0,
        saturation(c) == 0,
{
}

/// Alpha plays no part: colours with the same red, green and blue have the
/// same hue, saturation and lightness.
pub proof fn lemma_alpha_plays_no_part(x: ARGB, y: ARGB)
    requires
        x.r == y.r,
        x.g == y.g,
        x.b == y.b,
    ensures
        hue(x) == hue(y),
        saturation(x) == saturation(y),
        lightness(x) == lightness(y),
{
}

/// The rounded lightness is above 50 percent exactly when the largest and
/// the smallest channel add up to 258 or more. A sum of 256 or 257 is above
/// half of the scale and yet rounds to 50, so such a colour gets the
/// divisor of the darker half.
pub proof fn lemma_lightness_above_half(c: ARGB)
    ensures
        lightness(c) > 50 <==> brightest(c) + dimmest(c) >= 258,
{
    lemma_round_div_is_nearest(100 * (brightest(c) + dimmest(c)), 510);
}

/// The hue lies in the part of the colour wheel that belongs to the largest
/// channel: within 60 degrees of red (0 or 360), of green (120) or of blue
/// (240).
pub proof fn lemma_hue_sector(c: ARGB)
    requires
        chroma(c) > 0,
    ensures
        brightest(c) == c.r && c.g >= c.b ==> 0 <= hue(c) <= 60,
        brightest(c) == c.r && c.g < c.b ==> 300 <= hue(c) <= 360,
        brightest(c) != c.r && brightest(c) == c.g ==> 60 <= hue(c) <= 180,
        brightest(c) != c.r && brightest(c) != c.g ==> 180 <= hue(c) <= 300,
{
    let d = chroma(c);
    let w = wheel_position(c);
    if brightest(c) == c.r {
        if c.g >= c.b {
            lemma_round_div_lower(60 * w, d, 0);
            lemma_round_div_upper(60 * w, d, 60);
        } else {
            lemma_round_div_lower(60 * w, d, 300);
            lemma_round_div_upper(60 * w, d, 360);
        }
    } else if brightest(c) == c.g {
        lemma_round_div_lower(60 * w, d, 60);
        lemma_round_div_upper(60 * w, d, 180);
    } else {
        lemma_round_div_lower(60 * w, d, 180);
        lemma_round_div_upper(60 * w, d, 300);
    }
}

/// Where two channels are both the largest, it makes no difference which of
/// them the wheel position is counted from: each largest channel gives the
/// same position by its own formula.
pub proof fn lemma_shared_largest_channel(c: ARGB)
    requires
        chroma(c) > 0,
    ensures
        brightest(c) == c.r ==> wheel_position(c) == (if c.g < c.b {
            6 * chroma(c)
        } else {
            0
        }) + (c.g - c.b),
        brightest(c) == c.g ==> wheel_position(c) == 2 * chroma(c) + (c.b - c.r),
        brightest(c) == c.b ==> wheel_position(c) == 4 * chroma(c) + (c.r - c.g),
{
}

/// The hue is a full turn of 360 degrees, not 0, for the reds that lean so
/// little towards blue that the exact hue is within half a degree of the
/// full turn: red is the largest channel, green is below blue, and 120
/// times their difference is at most the chroma.
pub proof fn lemma_hue_full_turn(c: ARGB)
    ensures
        hue(c) == 360 <==> (brightest(c) == c.r && c.g < c.b && 120 * (c.b - c.g) <= chroma(c)),
{
    if chroma(c) > 0 {
        lemma_hue_sector(c);
        let d = chroma(c);
        let w = wheel_position(c);
        if brightest(c) == c.r && c.g < c.b {
            if 120 * (c.b - c.g) <= d {
                lemma_round_div_is_nearest(60 * w, d);
                let q = round_div(60 * w, d);
                assert(q >= 360) by (nonlinear_arith)
                    requires
                        d > 0,
                        2 * (60 * w) < 2 * (d * q) + d,
                        120 * w >= 719 * d,
                ;
            } else {
                lemma_round_div_is_nearest(60 * w, d);
                let q = round_div(60 * w, d);
                assert(q < 360) by (nonlinear_arith)
                    requires
                        d > 0,
                        2 * (d * q) - d <= 2 * (60 * w),
                        120 * w < 719 * d,
                ;
            }
        }
    }
}

impl HSL {
    /// Whether the three numbers lie in their ranges: hue from 0 to 360
    /// degrees, saturation and lightness from 0 to 100 percent.
    pub open spec fn wf(self) -> bool {
        self.h <= 360 && self.s <= 100 && self.l <= 100
    }

    /// Hue, saturation and lightness of `rgb`. Alpha plays no part.
    pub fn from_rgb(rgb: ARGB) -> (hsl: HSL)
        ensures
            hsl.h == hue(rgb),
            hsl.s == saturation(rgb),
            hsl.l == lightness(rgb),
            hsl.wf(),
    {
        proof {
            lemma_hsl_ranges(rgb);
        }
        let r: u32 = rgb.r as u32;
        let g: u32 = rgb.g as u32;
        let b: u32 = rgb.b as u32;
        let hi: u32 = if r >= g && r >= b {
            r
        } else if g >= b {
            g
        } else {
            b
        };
        let lo: u32 = if r <= g && r <= b {
            r
        } else if g <= b {
            g
        } else {
            b
        };
        let sum: u32 = hi + lo;
        let l: u32 = (200 * sum + 510) / 1020;
        if hi == lo {
            return HSL { h: 0, s: 0, l: l as u8 };
        }
        let delta: u32 = hi - lo;
        let divisor: u32 = if l > 50 {
            510 - sum
        } else {
            sum
        };
        let turns: u32 = if hi == r {
            if g < b {
                6 * delta + g - b
            } else {
                g - b
            }
        } else if hi == g {
            2 * delta + b - r
        } else {
            4 * delta + r - g
        };
        let s: u32 = (200 * delta + divisor) / (2 * divisor);
        let h: u32 = (120 * turns + delta) / (2 * delta);
        HSL { h: h as u16, s: s as u8, l: l as u8 }
    }
}

} // verus!
