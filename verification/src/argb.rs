//! The colour value itself: four 8-bit channels and the queries on them.

use vstd::prelude::*;

verus! {

/// A colour with an alpha channel, eight bits per channel.
///
/// Two colours are equal when all four channels are equal.
#[derive(Clone, Copy, Debug, PartialEq, Eq, Structural)]
pub struct ARGB {
    pub a: u8,
    pub r: u8,
    pub g: u8,
    pub b: u8,
}

/// A channel value whose two hexadecimal digits are the same, such as `0xee`.
pub open spec fn is_repeated_digit(n: u8) -> bool {
    n / 16 == n % 16
}

/// The square of the difference between two channel values.
pub open spec fn gap_squared(x: u8, y: u8) -> int {
    (y - x) * (y - x)
}

impl ARGB {
    /// Black with no opacity at all.
    pub open spec fn spec_transparent() -> ARGB {
        ARGB { a: 0, r: 0, g: 0, b: 0 }
    }

    /// Opaque black.
    pub open spec fn spec_black() -> ARGB {
        ARGB { a: 0xff, r: 0, g: 0, b: 0 }
    }

    /// Opaque white.
    pub open spec fn spec_white() -> ARGB {
        ARGB { a: 0xff, r: 0xff, g: 0xff, b: 0xff }
    }

    /// Black with no opacity at all.
    #[verifier::when_used_as_spec(spec_transparent)]
    pub fn transparent() -> (color: ARGB)
        ensures
            color == Self::spec_transparent(),
    {
        ARGB { a: 0, r: 0, g: 0, b: 0 }
    }

    /// Opaque black.
    #[verifier::when_used_as_spec(spec_black)]
    pub fn black() -> (color: ARGB)
        ensures
            color == Self::spec_black(),
    {
        ARGB { a: 0xff, r: 0, g: 0, b: 0 }
    }

    /// Opaque white.
    #[verifier::when_used_as_spec(spec_white)]
    pub fn white() -> (color: ARGB)
        ensures
            color == Self::spec_white(),
    {
        ARGB { a: 0xff, r: 0xff, g: 0xff, b: 0xff }
    }

    /// A colour that can be written with one hexadecimal digit per channel:
    /// each of red, green and blue repeats its digit. Alpha plays no part.
    pub open spec fn spec_is_compactable(self) -> bool {
        is_repeated_digit(self.r) && is_repeated_digit(self.g) && is_repeated_digit(self.b)
    }

    /// The squared Euclidean distance between two colours in RGB space.
    /// Alpha plays no part.
    pub open spec fn spec_distance_squared(self, other: ARGB) -> int {
        gap_squared(self.r, other.r) + gap_squared(self.g, other.g) + gap_squared(self.b, other.b)
    }

    /// A colour is dark when it lies nearer to black than to white.
    pub open spec fn spec_is_dark(self) -> bool {
        self.spec_distance_squared(ARGB::black()) < self.spec_distance_squared(ARGB::white())
    }

    /// The colour with the given alpha, red, green and blue.
    pub fn new(a: u8, r: u8, g: u8, b: u8) -> (color: ARGB)
        ensures
            color == (ARGB { a, r, g, b }),
    {
        ARGB { a, r, g, b }
    }

    /// Whether the colour can be written with one hexadecimal digit per
    /// channel, as in `#fe0` for `#ffee00`. Alpha plays no part.
    pub fn is_compactable(self) -> (res: bool)
        ensures
            res == self.spec_is_compactable(),
    {
        has_repeated_digit(self.r) && has_repeated_digit(self.g) && has_repeated_digit(self.b)
    }

    /// The squared Euclidean distance to `other` in RGB space. Distances
    /// compare as their squares do, so this is enough to order them exactly.
    pub fn distance_squared(self, other: ARGB) -> (d: u32)
        ensures
            d == self.spec_distance_squared(other),
            d <= 195075,
    {
        channel_gap_squared(self.r, other.r) + channel_gap_squared(self.g, other.g)
            + channel_gap_squared(self.b, other.b)
    }

    /// Whether the colour is nearer to black than to white. This is a
    /// classification by distance in RGB space, not a luminance formula.
    pub fn is_dark(self) -> (res: bool)
        ensures
            res == self.spec_is_dark(),
    {
        self.distance_squared(ARGB::black()) < self.distance_squared(ARGB::white())
    }
}

fn has_repeated_digit(n: u8) -> (res: bool)
    ensures
        res == is_repeated_digit(n),
{
    assert(n >> 4 == n / 16) by (bit_vector);
    assert(n & 0xf == n % 16) by (bit_vector);
    (n >> 4) == (n & 0xf)
}

fn channel_gap_squared(x: u8, y: u8) -> (res: u32)
    ensures
        res == gap_squared(x, y),
        res <= 65025,
{
    let d: u32 = if x <= y {
        (y - x) as u32
    } else {
        (x - y) as u32
    };
    assert(d * d == (y - x) * (y - x)) by (nonlinear_arith)
        requires
            d == y - x || d == x - y,
    ;
    assert(d * d <= 65025) by (nonlinear_arith)
        requires
            d <= 255,
    ;
    d * d
}

/// The colour as one 32-bit number: alpha in the highest byte, then red,
/// green, and blue in the lowest.
pub open spec fn packed(color: ARGB) -> u32 {
    (color.a as u32) << 24 | (color.r as u32) << 16 | (color.g as u32) << 8 | (color.b as u32)
}

/// The colour as one 32-bit number, `0xAARRGGBB`.
impl From<ARGB> for u32 {
    fn from(color: ARGB) -> (bits: u32) {
        (color.a as u32) << 24 | (color.r as u32) << 16 | (color.g as u32) << 8 | (color.b as u32)
    }
}

impl vstd::std_specs::convert::FromSpecImpl<ARGB> for u32 {
    open spec fn obeys_from_spec() -> bool {
        true
    }

    open spec fn from_spec(color: ARGB) -> u32 {
        packed(color)
    }
}

/// The packed number read in base 256: its four digits are the channels.
pub proof fn lemma_packed_digits(color: ARGB)
    ensures
        packed(color) == color.a * 0x100_0000 + color.r * 0x1_0000 + color.g * 0x100 + color.b,
{
    let a = color.a;
    let r = color.r;
    let g = color.g;
    let b = color.b;
    assert(((a as u32) << 24 | (r as u32) << 16 | (g as u32) << 8 | (b as u32)) == a * 0x100_0000
        + r * 0x1_0000 + g * 0x100 + b) by (bit_vector);
}

/// Packing loses nothing: each channel can be read back from its byte of
/// the packed number.
pub proof fn lemma_packed_unpacks(color: ARGB)
    ensures
        color.a == packed(color) >> 24,
        color.r == (packed(color) >> 16) & 0xff,
        color.g == (packed(color) >> 8) & 0xff,
        color.b == packed(color) & 0xff,
{
    let a = color.a;
    let r = color.r;
    let g = color.g;
    let b = color.b;
    assert({
        let p = (a as u32) << 24 | (r as u32) << 16 | (g as u32) << 8 | (b as u32);
        &&& a == p >> 24
        &&& r == (p >> 16) & 0xff
        &&& g == (p >> 8) & 0xff
        &&& b == p & 0xff
    }) by (bit_vector);
}

/// Two colours with the same packed number are the same colour.
pub proof fn lemma_packed_injective(x: ARGB, y: ARGB)
    requires
        packed(x) == packed(y),
    ensures
        x == y,
{
    lemma_packed_unpacks(x);
    lemma_packed_unpacks(y);
}

/// A channel repeats its hexadecimal digit exactly when it is a multiple of
/// seventeen, that is, `d * 16 + d` for a digit `d`.
pub proof fn lemma_repeated_digit_multiple(n: u8)
    ensures
        is_repeated_digit(n) <==> n % 17 == 0,
        is_repeated_digit(n) <==> n == 17 * (n / 16),
{
}

/// The distance from `x` to `y` is the distance from `y` to `x`.
pub proof fn lemma_distance_symmetric(x: ARGB, y: ARGB)
    ensures
        x.spec_distance_squared(y) == y.spec_distance_squared(x),
{
    lemma_gap_symmetric(x.r, y.r);
    lemma_gap_symmetric(x.g, y.g);
    lemma_gap_symmetric(x.b, y.b);
}

/// The distance between two colours is zero exactly when their red, green
/// and blue channels agree; it is never negative.
pub proof fn lemma_distance_zero(x: ARGB, y: ARGB)
    ensures
        x.spec_distance_squared(y) >= 0,
        x.spec_distance_squared(y) == 0 <==> (x.r == y.r && x.g == y.g && x.b == y.b),
{
    lemma_gap_zero(x.r, y.r);
    lemma_gap_zero(x.g, y.g);
    lemma_gap_zero(x.b, y.b);
}

/// A colour lies nearer to black than to white exactly when its red, green
/// and blue channels add up to less than half of what white's add up to.
pub proof fn lemma_dark_by_sum(color: ARGB)
    ensures
        color.spec_is_dark() <==> color.r + color.g + color.b <= 382,
{
    lemma_gap_from_ends(color.r);
    lemma_gap_from_ends(color.g);
    lemma_gap_from_ends(color.b);
}

proof fn lemma_gap_symmetric(x: u8, y: u8)
    ensures
        gap_squared(x, y) == gap_squared(y, x),
{
    assert((y - x) * (y - x) == (x - y) * (x - y)) by (nonlinear_arith);
}

proof fn lemma_gap_zero(x: u8, y: u8)
    ensures
        gap_squared(x, y) >= 0,
        gap_squared(x, y) == 0 <==> x == y,
{
    let d = y - x;
    assert(d * d >= 0 && (d * d == 0 <==> d == 0)) by (nonlinear_arith);
}

proof fn lemma_gap_from_ends(x: u8)
    ensures
        gap_squared(x, 255) - gap_squared(x, 0) == 65025 - 510 * x,
{
    assert((255 - x) * (255 - x) - (0 - x) * (0 - x) == 65025 - 510 * x) by (nonlinear_arith);
}

} // verus!
