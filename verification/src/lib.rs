//! A small colour model for pixels sampled from a screen.
//!
//! Everything here works on integers, so every result is exact: colours are
//! four 8-bit channels, distances are compared by their squares, blending
//! amounts are fractions, and hue, saturation and lightness are whole
//! numbers.
//!
//! - [`argb`]: the colour value, its distance to another colour, whether it
//!   is dark, and its packed form.
//! - [`blend`]: blending one colour into another, lightening and darkening.
//! - [`hsl`]: hue, saturation and lightness of a colour.
//! - [`pixel`]: decoding the bytes of a screen image into colours.
//! - [`arith`]: the two rounding divisions that the formulas use.

pub mod argb;
pub mod arith;
pub mod blend;
pub mod hsl;
pub mod pixel;

pub use argb::ARGB;
pub use hsl::HSL;
pub use pixel::{decode_pixel, decode_point, decode_rect, PixelError};
