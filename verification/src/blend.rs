//! Blending one colour into another by a fraction.
//!
//! The amount of a blend is the fraction `num / den`, from 0 (all of the
//! first colour) to 1 (all of the second). Each of red, green and blue is
//! the weighted mean of the two channels, rounded up to a whole number;
//! alpha is that of the first colour.

use vstd::prelude::*;
use crate::argb::ARGB;
use crate::arith::{
    ceil_div,
    lemma_ceil_div_is_ceiling,
    lemma_ceiling_is_ceil_div,
    lemma_exact_quotient,
};

verus! {

/// The weighted sum of which a blended channel is the rounded quotient:
/// `x` counts `den - num` times and `y` counts `num` times.
pub open spec fn weighted_sum(x: u8, y: u8, num: int, den: int) -> int {
    (den - num) * x + num * y
}

/// One channel of a blend: `(1 - num/den) * x + (num/den) * y`, rounded up.
pub open spec fn blend_channel(x: u8, y: u8, num: int, den: int) -> int {
    ceil_div(weighted_sum(x, y, num, den), den)
}

/// The weighted sum lies between `den` times the smaller and `den` times
/// the larger of the two channels.
pub proof fn lemma_weighted_sum_bounds(x: u8, y: u8, num: int, den: int)
    requires
        0 <= num <= den,
    ensures
        x <= y ==> den * x <= weighted_sum(x, y, num, den) <= den * y,
        y <= x ==> den * y <= weighted_sum(x, y, num, den) <= den * x,
{
    let w = weighted_sum(x, y, num, den);
    assert(w == den * x + num * (y - x)) by (nonlinear_arith)
        requires
            w == (den - num) * x + num * y,
    ;
    assert(w == den * y + (den - num) * (x - y)) by (nonlinear_arith)
        requires
            w == (den - num) * x + num * y,
    ;
    if x <= y {
        assert(num * (y - x) >= 0) by (nonlinear_arith)
            requires
                num >= 0,
                y - x >= 0,
        ;
        assert((den - num) * (x - y) <= 0) by (nonlinear_arith)
            requires
                den - num >= 0,
                x - y <= 0,
        ;
    }
    if y <= x {
        assert(num * (y - x) <= 0) by (nonlinear_arith)
            requires
                num >= 0,
                y - x <= 0,
        ;
        assert((den - num) * (x - y) >= 0) by (nonlinear_arith)
            requires
                den - num >= 0,
                x - y >= 0,
        ;
    }
}

/// A blended channel lies between the two channels it was made from, so it
/// is again a channel value.
pub proof fn lemma_blend_channel_between(x: u8, y: u8, num: int, den: int)
    requires
        0 < den,
        0 <= num <= den,
    ensures
        x <= y ==> x <= blend_channel(x, y, num, den) <= y,
        y <= x ==> y <= blend_channel(x, y, num, den) <= x,
        0 <= blend_channel(x, y, num, den) <= 255,
{
    let w = weighted_sum(x, y, num, den);
    let q = blend_channel(x, y, num, den);
    lemma_weighted_sum_bounds(x, y, num, den);
    lemma_ceil_div_is_ceiling(w, den);
    let lo: int = if x <= y { x as int } else { y as int };
    let hi: int = if x <= y { y as int } else { x as int };
    assert(lo <= q <= hi) by (nonlinear_arith)
        requires
            0 < den,
            den * lo <= w <= den * hi,
            den * q - den < w <= den * q,
    ;
}

/// At the two ends a blended channel is one of the two channels: the first
/// for the fraction 0, the second for the fraction 1.
pub proof fn lemma_blend_channel_ends(x: u8, y: u8, den: int)
    requires
        0 < den,
    ensures
        blend_channel(x, y, 0, den) == x,
        blend_channel(x, y, den, den) == y,
{
    assert(weighted_sum(x, y, 0, den) == x * den) by (nonlinear_arith);
    assert(weighted_sum(x, y, den, den) == y * den) by (nonlinear_arith);
    lemma_exact_quotient(x as int, den);
    lemma_exact_quotient(y as int, den);
}

/// A blended channel depends on the value of the fraction only: `num / den`
/// and `(k * num) / (k * den)` give the same channel.
pub proof fn lemma_blend_channel_by_value(x: u8, y: u8, num: int, den: int, k: int)
    requires
        0 < den,
        0 < k,
    ensures
        blend_channel(x, y, k * num, k * den) == blend_channel(x, y, num, den),
{
    let w = weighted_sum(x, y, num, den);
    let q = blend_channel(x, y, num, den);
    lemma_ceil_div_is_ceiling(w, den);
    assert(weighted_sum(x, y, k * num, k * den) == k * w) by (nonlinear_arith)
        requires
            w == (den - num) * x + num * y,
    ;
    assert(0 < k * den && (k * den) * q - k * den < k * w <= (k * den) * q) by (nonlinear_arith)
        requires
            0 < k,
            0 < den,
            den * q - den < w <= den * q,
    ;
    lemma_ceiling_is_ceil_div(q, k * w, k * den);
}

/// A larger fraction moves a blended channel towards the second channel,
/// never away from it.
pub proof fn lemma_blend_channel_monotone(x: u8, y: u8, less: int, more: int, den: int)
    requires
        0 < den,
        less <= more,
    ensures
        x <= y ==> blend_channel(x, y, less, den) <= blend_channel(x, y, more, den),
        y <= x ==> blend_channel(x, y, less, den) >= blend_channel(x, y, more, den),
{
    let w1 = weighted_sum(x, y, less, den);
    let w2 = weighted_sum(x, y, more, den);
    let q1 = blend_channel(x, y, less, den);
    let q2 = blend_channel(x, y, more, den);
    lemma_ceil_div_is_ceiling(w1, den);
    lemma_ceil_div_is_ceiling(w2, den);
    assert(w2 - w1 == (more - less) * (y - x)) by (nonlinear_arith)
        requires
            w1 == (den - less) * x + less * y,
            w2 == (den - more) * x + more * y,
    ;
    if x <= y {
        assert((more - less) * (y - x) >= 0) by (nonlinear_arith)
            requires
                more - less >= 0,
                y - x >= 0,
        ;
        assert(q1 <= q2) by (nonlinear_arith)
            requires
                0 < den,
                w1 <= w2,
                den * q1 - den < w1,
                w2 <= den * q2,
        ;
    }
    if y <= x {
        assert((more - less) * (y - x) <= 0) by (nonlinear_arith)
            requires
                more - less >= 0,
                y - x <= 0,
        ;
        assert(q2 <= q1) by (nonlinear_arith)
            requires
                0 < den,
                w2 <= w1,
                den * q2 - den < w2,
                w1 <= den * q1,
        ;
    }
}

/// Blending by the fraction 0 gives the first colour back.
pub proof fn lemma_interpolate_none(x: ARGB, y: ARGB, den: int)
    requires
        0 < den,
    ensures
        x.spec_interpolate(y, 0, den) == x,
{
    lemma_blend_channel_ends(x.r, y.r, den);
    lemma_blend_channel_ends(x.g, y.g, den);
    lemma_blend_channel_ends(x.b, y.b, den);
}

/// Blending by the fraction 1 gives the red, green and blue of the second
/// colour under the alpha of the first; where the two have the same alpha,
/// that is the second colour.
pub proof fn lemma_interpolate_all(x: ARGB, y: ARGB, den: int)
    requires
        0 < den,
    ensures
        x.spec_interpolate(y, den, den) == (ARGB { a: x.a, r: y.r, g: y.g, b: y.b }),
        x.a == y.a ==> x.spec_interpolate(y, den, den) == y,
{
    lemma_blend_channel_ends(x.r, y.r, den);
    lemma_blend_channel_ends(x.g, y.g, den);
    lemma_blend_channel_ends(x.b, y.b, den);
}

/// A colour blended with a colour of the same red, green and blue stays as
/// it is, whatever the fraction.
pub proof fn lemma_interpolate_same(x: ARGB, y: ARGB, num: int, den: int)
    requires
        0 < den,
        0 <= num <= den,
        x.r == y.r,
        x.g == y.g,
        x.b == y.b,
    ensures
        x.spec_interpolate(y, num, den) == x,
{
    lemma_blend_channel_between(x.r, y.r, num, den);
    lemma_blend_channel_between(x.g, y.g, num, den);
    lemma_blend_channel_between(x.b, y.b, num, den);
}

/// Blending in white lowers no channel, and blending in black raises none.
pub proof fn lemma_lighten_darken(color: ARGB, num: int, den: int)
    requires
        0 < den,
        0 <= num <= den,
    ensures
        ({
            let light = color.spec_interpolate(ARGB::white(), num, den);
            light.r >= color.r && light.g >= color.g && light.b >= color.b
        }),
        ({
            let dark = color.spec_interpolate(ARGB::black(), num, den);
            dark.r <= color.r && dark.g <= color.g && dark.b <= color.b
        }),
{
    lemma_blend_channel_between(color.r, 255, num, den);
    lemma_blend_channel_between(color.g, 255, num, den);
    lemma_blend_channel_between(color.b, 255, num, den);
    lemma_blend_channel_between(color.r, 0, num, den);
    lemma_blend_channel_between(color.g, 0, num, den);
    lemma_blend_channel_between(color.b, 0, num, den);
}

impl ARGB {
    /// The blend of `self` and `other` by the fraction `num / den`: red,
    /// green and blue are blended channel by channel, alpha is kept.
    pub open spec fn spec_interpolate(self, other: ARGB, num: int, den: int) -> ARGB {
        ARGB {
            a: self.a,
            r: blend_channel(self.r, other.r, num, den) as u8,
            g: blend_channel(self.g, other.g, num, den) as u8,
            b: blend_channel(self.b, other.b, num, den) as u8,
        }
    }

    /// Blends `other` into `self` by the fraction `num / den`, which must
    /// lie between 0 and 1. Each of red, green and blue is rounded up, not to
    /// the nearest; alpha is that of `self`.
    pub fn interpolate(self, other: ARGB, num: u64, den: u64) -> (color: ARGB)
        requires
            0 < den,
            num <= den,
        ensures
            color == self.spec_interpolate(other, num as int, den as int),
    {
        ARGB {
            a: self.a,
            r: lerp(self.r, other.r, num, den),
            g: lerp(self.g, other.g, num, den),
            b: lerp(self.b, other.b, num, den),
        }
    }

    /// Blends opaque white into `self` by the fraction `num / den`.
    pub fn lighten(self, num: u64, den: u64) -> (color: ARGB)
        requires
            0 < den,
            num <= den,
        ensures
            color == self.spec_interpolate(ARGB::white(), num as int, den as int),
    {
        self.interpolate(ARGB::white(), num, den)
    }

    /// Blends opaque black into `self` by the fraction `num / den`.
    pub fn darken(self, num: u64, den: u64) -> (color: ARGB)
        requires
            0 < den,
            num <= den,
        ensures
            color == self.spec_interpolate(ARGB::black(), num as int, den as int),
    {
        self.interpolate(ARGB::black(), num, den)
    }
}

fn lerp(x: u8, y: u8, num: u64, den: u64) -> (res: u8)
    requires
        0 < den,
        num <= den,
    ensures
        res == blend_channel(x, y, num as int, den as int),
{
    proof {
        lemma_blend_channel_between(x, y, num as int, den as int);
        assert(0 <= (den - num) * x <= den * 255) by (nonlinear_arith)
            requires
                0 <= num <= den,
                0 <= x <= 255,
        ;
        assert(0 <= num * y <= den * 255) by (nonlinear_arith)
            requires
                0 <= num <= den,
                0 <= y <= 255,
        ;
    }
    let keep: u128 = (den - num) as u128 * (x as u128);
    let take: u128 = (num as u128) * (y as u128);
    let total: u128 = keep + take;
    let q: u128 = (total + (den as u128 - 1)) / (den as u128);
    q as u8
}

} // verus!
