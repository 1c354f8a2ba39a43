//! The pixel canvas: encoding bytes into it, and decoding them back.
//!
//! Encoding plans the canvas dimensions from the byte count, then places
//! each byte's color row-major (left to right, top to bottom); cells past
//! the last byte are filled with black. Decoding walks the pixels in the
//! same order and looks each color up in the inverse mapping, appending
//! the byte it finds and silently skipping colors that no byte maps to —
//! which is how the black padding cells are discarded, black being
//! provably absent from the mapping.

use vstd::prelude::*;
use crate::PicbinError;
use crate::color::Color;
use crate::color::byte_to_color;
use crate::color::color_of;
use crate::color::color_to_byte;
use crate::color::inverse_of;
use crate::color::lemma_black_unmapped;
use crate::color::lemma_inverse_of_color;
use crate::color::lemma_inverse_of_unmapped;
use crate::dims::MAX_AREA;
use crate::dims::dimensions;
use crate::dims::lemma_dims_capacity;
use crate::dims::valid_dims;

verus! {

/// The color that fills canvas cells beyond the last encoded byte.
pub open spec fn pad_color() -> Color {
    Color { r: 0, g: 0, b: 0 }
}

/// A width-by-height grid of colors, stored row-major.
pub struct Canvas {
    pub width: u32,
    pub height: u32,
    pub pixels: Vec<Color>,
}

impl Canvas {
    /// A canvas is well formed when it holds exactly one color per cell.
    pub open spec fn wf(self) -> bool {
        self.pixels@.len() == (self.width as int) * (self.height as int)
    }
}

/// The first `m` cells of an encoding of `bytes`: each byte's color in
/// order, then black padding.
pub open spec fn padded_pixels(bytes: Seq<u8>, m: int) -> Seq<Color> {
    Seq::new(
        m as nat,
        |i: int|
            if i < bytes.len() {
                color_of(bytes[i])
            } else {
                pad_color()
            },
    )
}

/// The pixel sequence that encoding `bytes` into a `w`-by-`h` canvas
/// produces.
pub open spec fn encoded_pixels(bytes: Seq<u8>, w: int, h: int) -> Seq<Color> {
    padded_pixels(bytes, w * h)
}

/// The byte sequence that decoding the pixel sequence `s` produces: each
/// pixel's byte under the inverse mapping, in order; pixels whose color is
/// not in the inverse mapping contribute nothing.
pub open spec fn decoded_bytes(s: Seq<Color>) -> Seq<u8>
    decreases s.len(),
{
    if s.len() == 0 {
        Seq::empty()
    } else {
        decoded_bytes(s.drop_last()) + match inverse_of(s.last()) {
            Some(b) => seq![b],
            None => Seq::empty(),
        }
    }
}

/// Encode a byte sequence into a canvas. Fails exactly when no pair of
/// 32-bit dimensions can hold one pixel per byte.
pub fn encode(bytes: &Vec<u8>) -> (r: Result<Canvas, PicbinError>)
    ensures
        bytes@.len() <= MAX_AREA ==> (r matches Ok(c) && c.wf() && valid_dims(
            bytes@.len() as int,
            c.width as int,
            c.height as int,
        ) && c.pixels@ == encoded_pixels(bytes@, c.width as int, c.height as int)),
        bytes@.len() > MAX_AREA ==> r == Err::<Canvas, PicbinError>(PicbinError::FileSizeTooLarge),
{
    let n: usize = bytes.len();
    let (w, h) = match dimensions(n as u64) {
        Ok(d) => d,
        Err(e) => {
            return Err(e);
        },
    };
    assert((w as int) * (h as int) <= 0xFFFF_FFFFu64 * 0xFFFF_FFFF) by (nonlinear_arith)
        requires
            w <= 0xFFFF_FFFF && h <= 0xFFFF_FFFF,
    ;
    let total: u64 = (w as u64) * (h as u64);
    let mut pixels: Vec<Color> = Vec::new();
    let mut i: u64 = 0;
    while i < total
        invariant
            i <= total,
            total == (w as int) * (h as int),
            n == bytes@.len(),
            n <= total,
            pixels@.len() == i,
            forall|j: int|
                0 <= j < i ==> pixels@[j] == #[trigger] encoded_pixels(
                    bytes@,
                    w as int,
                    h as int,
                )[j],
        decreases total - i,
    {
        if i < n as u64 {
            let b: u8 = bytes[i as usize];
            pixels.push(byte_to_color(b));
        } else {
            pixels.push(Color { r: 0, g: 0, b: 0 });
        }
        i = i + 1;
    }
    proof {
        lemma_dims_capacity(n as int, w as int, h as int);
        assert(pixels@ =~= encoded_pixels(bytes@, w as int, h as int));
    }
    Ok(Canvas { width: w, height: h, pixels })
}

/// Decode a canvas back into bytes: every pixel is looked up in the
/// inverse mapping in row-major order; a mapped color appends its byte,
/// an unmapped color (padding, in particular) is skipped silently.
pub fn decode(canvas: &Canvas) -> (out: Vec<u8>)
    ensures
        out@ == decoded_bytes(canvas.pixels@),
{
    let mut out: Vec<u8> = Vec::new();
    let n: usize = canvas.pixels.len();
    let mut i: usize = 0;
    while i < n
        invariant
            i <= n == canvas.pixels@.len(),
            out@ == decoded_bytes(canvas.pixels@.take(i as int)),
        decreases n - i,
    {
        let c: Color = canvas.pixels[i];
        match color_to_byte(c) {
            Some(b) => {
                out.push(b);
            },
            None => {},
        }
        proof {
            let taken = canvas.pixels@.take(i + 1);
            assert(taken.drop_last() =~= canvas.pixels@.take(i as int));
            assert(taken.last() == c);
            assert(decoded_bytes(taken) == decoded_bytes(taken.drop_last()) + match inverse_of(
                c,
            ) {
                Some(b) => seq![b],
                None => Seq::empty(),
            });
            if inverse_of(c) is Some {
                assert(out@ =~= decoded_bytes(taken));
            } else {
                assert(out@ =~= decoded_bytes(taken));
            }
        }
        i = i + 1;
    }
    proof {
        assert(canvas.pixels@.take(n as int) =~= canvas.pixels@);
    }
    out
}

/// A pixel whose color no byte maps to contributes nothing: appending it
/// to a pixel sequence leaves the decoded bytes unchanged. Malformed or
/// foreign colors therefore never fail a decode — they are skipped.
pub proof fn lemma_unmapped_pixel_skipped(s: Seq<Color>, c: Color)
    requires
        forall|k: u8| color_of(k) != c,
    ensures
        decoded_bytes(s.push(c)) == decoded_bytes(s),
{
    lemma_inverse_of_unmapped(c);
    assert(s.push(c).drop_last() =~= s);
    assert(s.push(c).last() == c);
    assert(decoded_bytes(s) + Seq::<u8>::empty() =~= decoded_bytes(s));
}

/// Decoding the colors of a byte sequence, with no padding cells,
/// recovers the bytes exactly.
proof fn lemma_decode_of_colors(bytes: Seq<u8>)
    ensures
        decoded_bytes(padded_pixels(bytes, bytes.len() as int)) == bytes,
    decreases bytes.len(),
{
    let s = padded_pixels(bytes, bytes.len() as int);
    if bytes.len() == 0 {
        assert(decoded_bytes(s) =~= bytes);
    } else {
        let prefix = bytes.drop_last();
        lemma_decode_of_colors(prefix);
        assert(s.drop_last() =~= padded_pixels(prefix, prefix.len() as int));
        assert(s.last() == color_of(bytes.last()));
        lemma_inverse_of_color(bytes.last());
        assert(decoded_bytes(s) == decoded_bytes(s.drop_last()) + seq![bytes.last()]);
        assert(prefix + seq![bytes.last()] =~= bytes);
    }
}

/// Trailing padding cells do not change what an encoding decodes to.
proof fn lemma_decode_with_padding(bytes: Seq<u8>, m: int)
    requires
        m >= bytes.len(),
    ensures
        decoded_bytes(padded_pixels(bytes, m)) == bytes,
    decreases m,
{
    if m == bytes.len() {
        lemma_decode_of_colors(bytes);
    } else {
        lemma_decode_with_padding(bytes, m - 1);
        lemma_black_unmapped();
        lemma_unmapped_pixel_skipped(padded_pixels(bytes, m - 1), pad_color());
        assert(padded_pixels(bytes, m) =~= padded_pixels(bytes, m - 1).push(pad_color()));
    }
}

/// Round trip: decoding the pixels that encoding a byte sequence produced
/// recovers that sequence exactly. This holds with or without trailing
/// padding cells, because the black padding color is not a mapped color
/// and every padding cell is therefore dropped by the decoder.
pub proof fn lemma_round_trip(bytes: Seq<u8>, w: int, h: int)
    requires
        valid_dims(bytes.len() as int, w, h),
    ensures
        decoded_bytes(encoded_pixels(bytes, w, h)) == bytes,
{
    lemma_dims_capacity(bytes.len() as int, w, h);
    lemma_decode_with_padding(bytes, w * h);
}

} // verus!
