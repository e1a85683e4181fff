//! Decoding the raw bytes of a screen image into colours.
//!
//! An image arrives as its colour depth and a buffer of bytes, four to a
//! pixel: blue, green, red, and one byte of padding, row after row. Only a
//! depth of 24 bits is understood. Every decoded colour is opaque.

use vstd::prelude::*;
use crate::argb::ARGB;

verus! {

/// The one colour depth, in bits, whose pixels can be decoded.
pub const TRUE_COLOR_DEPTH: u8 = 24;

/// Why an image could not be decoded.
#[derive(Clone, Copy, Debug, PartialEq, Eq, Structural)]
pub enum PixelError {
    /// The image has a colour depth other than 24 bits.
    UnsupportedPixelFormat,
}

impl PixelError {
    /// A short description of the error.
    pub fn message(&self) -> (text: &'static str)
        ensures
            text@ == "Unsupported color depth"@,
    {
        match self {
            PixelError::UnsupportedPixelFormat => "Unsupported color depth",
        }
    }
}

/// The colour of the `i`-th group of four bytes: blue first, then green,
/// then red; the fourth byte is not read and the colour is opaque.
pub open spec fn pixel_at(data: Seq<u8>, i: int) -> ARGB {
    ARGB { a: 0xff, r: data[4 * i + 2], g: data[4 * i + 1], b: data[4 * i] }
}

/// The colours of all complete groups of four bytes, in the order of the
/// buffer. Bytes after the last complete group are not read.
pub open spec fn pixels_of(data: Seq<u8>) -> Seq<ARGB> {
    Seq::new((data.len() / 4) as nat, |i: int| pixel_at(data, i))
}

/// An image of `width` by `height` pixels fills `4 * width * height` bytes
/// and decodes to `width * height` colours, row after row: the pixel in row
/// `row` and column `col` is colour number `row * width + col`.
pub proof fn lemma_row_major(data: Seq<u8>, width: int, height: int, row: int, col: int)
    requires
        data.len() == 4 * (width * height),
        0 <= row < height,
        0 <= col < width,
    ensures
        pixels_of(data).len() == width * height,
        0 <= row * width + col < width * height,
        pixels_of(data)[row * width + col] == pixel_at(data, row * width + col),
{
    assert(0 <= row * width && row * width + width <= width * height) by (nonlinear_arith)
        requires
            0 <= row < height,
            0 <= width,
    ;
}

/// Decodes the pixel that starts at byte `4 * index` of `data`.
pub fn decode_pixel(data: &[u8], index: usize) -> (color: ARGB)
    requires
        4 * index + 4 <= data.len(),
    ensures
        color == pixel_at(data@, index as int),
{
    let at: usize = 4 * index;
    ARGB::new(0xff, data[at + 2], data[at + 1], data[at])
}

/// Decodes a whole image: one colour for each complete group of four bytes
/// of `data`, in the order of the buffer, which is row by row. An image of
/// any depth but 24 bits is refused, whatever its bytes.
pub fn decode_rect(depth: u8, data: &[u8]) -> (res: Result<Vec<ARGB>, PixelError>)
    ensures
        depth != TRUE_COLOR_DEPTH ==> res == Err::<Vec<ARGB>, PixelError>(
            PixelError::UnsupportedPixelFormat,
        ),
        depth == TRUE_COLOR_DEPTH ==> res is Ok && res->Ok_0@ == pixels_of(data@),
{
    if depth != TRUE_COLOR_DEPTH {
        return Err(PixelError::UnsupportedPixelFormat);
    }
    let count: usize = data.len() / 4;
    let mut pixels: Vec<ARGB> = Vec::with_capacity(count);
    let mut i: usize = 0;
    while i < count
        invariant
            i <= count,
            count == data@.len() / 4,
            pixels@.len() == i,
            forall|k: int| 0 <= k < i ==> pixels@[k] == pixel_at(data@, k),
        decreases count - i,
    {
        pixels.push(decode_pixel(data, i));
        i += 1;
    }
    assert(pixels@ =~= pixels_of(data@));
    Ok(pixels)
}

/// Decodes the image of a single point: the colour of its first four
/// bytes. An image of any depth but 24 bits is refused, whatever its bytes;
/// one of 24 bits must hold a pixel.
pub fn decode_point(depth: u8, data: &[u8]) -> (res: Result<ARGB, PixelError>)
    requires
        depth == TRUE_COLOR_DEPTH ==> data.len() >= 4,
    ensures
        depth != TRUE_COLOR_DEPTH ==> res == Err::<ARGB, PixelError>(
            PixelError::UnsupportedPixelFormat,
        ),
        depth == TRUE_COLOR_DEPTH ==> res == Ok::<ARGB, PixelError>(pixel_at(data@, 0)),
{
    if depth != TRUE_COLOR_DEPTH {
        return Err(PixelError::UnsupportedPixelFormat);
    }
    Ok(decode_pixel(data, 0))
}

} // verus!
