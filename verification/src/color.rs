//! The byte-to-color mapping and its inverse.
//!
//! A byte is treated as a position on a 360-degree hue wheel. The wheel is
//! split into six 60-degree sections (red, yellow, lime, cyan, blue,
//! fuchsia); the section picks which channels are saturated, and two
//! interpolated values (one rising across the section, one falling) fill in
//! the remaining channel:
//!
//! | section | red     | green   | blue    |
//! |---------|---------|---------|---------|
//! | 0       | 255     | rising  | 0       |
//! | 1       | falling | 255     | 0       |
//! | 2       | 0       | 255     | rising  |
//! | 3       | 0       | falling | 255     |
//! | 4       | rising  | 0       | 255     |
//! | 5       | 255     | 0       | falling |
//!
//! The interpolation offset is taken from the raw byte value modulo 60, not
//! from the hue; this quirk is part of the mapping's definition and is kept
//! exactly, since the resulting 256 colors are pairwise distinct (proved
//! below in [`lemma_color_injective`]).

use vstd::prelude::*;

verus! {

/// An RGB color: three 8-bit channels. Equality is exact component-wise
/// equality.
#[derive(Clone, Copy, Debug, PartialEq, Eq, Hash, Structural)]
pub struct Color {
    pub r: u8,
    pub g: u8,
    pub b: u8,
}

/// The hue, in degrees (0..=358), assigned to byte `b`: the byte scaled
/// onto a 360-degree wheel.
pub open spec fn hue_of(b: u8) -> int {
    360 * b / 256
}

/// Which of the six 60-degree hue sections the byte's hue falls in (0..=5).
pub open spec fn section_of(b: u8) -> int {
    hue_of(b) / 60
}

/// How far the byte sits from the start of a section. Derived from the raw
/// byte value, not from the hue.
pub open spec fn offset_of(b: u8) -> int {
    (b as int) % 60
}

/// The interpolated channel value that rises across a section (0..=251).
pub open spec fn rising_of(b: u8) -> u8 {
    (256 * offset_of(b) / 60) as u8
}

/// The interpolated channel value that falls across a section (4..=255).
pub open spec fn falling_of(b: u8) -> u8 {
    (255 - rising_of(b)) as u8
}

/// The red channel of the color assigned to byte `b`.
pub open spec fn red_of(b: u8) -> u8 {
    let s = section_of(b);
    if s == 0 {
        255
    } else if s == 1 {
        falling_of(b)
    } else if s == 2 {
        0
    } else if s == 3 {
        0
    } else if s == 4 {
        rising_of(b)
    } else {
        255
    }
}

/// The green channel of the color assigned to byte `b`.
pub open spec fn green_of(b: u8) -> u8 {
    let s = section_of(b);
    if s == 0 {
        rising_of(b)
    } else if s == 1 {
        255
    } else if s == 2 {
        255
    } else if s == 3 {
        falling_of(b)
    } else if s == 4 {
        0
    } else {
        0
    }
}

/// The blue channel of the color assigned to byte `b`.
pub open spec fn blue_of(b: u8) -> u8 {
    let s = section_of(b);
    if s == 0 {
        0
    } else if s == 1 {
        0
    } else if s == 2 {
        rising_of(b)
    } else if s == 3 {
        255
    } else if s == 4 {
        255
    } else {
        falling_of(b)
    }
}

/// The color assigned to byte `b`: a total, deterministic mapping.
pub open spec fn color_of(b: u8) -> Color {
    Color { r: red_of(b), g: green_of(b), b: blue_of(b) }
}

/// Map a single byte to its color.
pub fn byte_to_color(b: u8) -> (c: Color)
    ensures
        c == color_of(b),
{
    let wide: u32 = b as u32;
    let hue: u32 = 360 * wide / 256;
    let section: u32 = hue / 60;
    let offset: u32 = wide % 60;
    let rising_wide: u32 = 256 * offset / 60;
    assert(rising_wide <= 251);
    assert(section <= 5);
    let rising: u8 = rising_wide as u8;
    let falling: u8 = 255 - rising;
    if section == 0 {
        Color { r: 255, g: rising, b: 0 }
    } else if section == 1 {
        Color { r: falling, g: 255, b: 0 }
    } else if section == 2 {
        Color { r: 0, g: 255, b: rising }
    } else if section == 3 {
        Color { r: 0, g: falling, b: 255 }
    } else if section == 4 {
        Color { r: rising, g: 0, b: 255 }
    } else {
        Color { r: 255, g: 0, b: falling }
    }
}

/// The inverse mapping restricted to bytes below `n`: the lookup table
/// that results from inserting the pairs `(color_of(b), b)` for
/// `b = 0, 1, ..., n - 1` in ascending order, a later insertion
/// overwriting an earlier one that shares the same color.
pub open spec fn inverse_upto(c: Color, n: int) -> Option<u8>
    decreases n,
{
    if n <= 0 {
        None
    } else if color_of((n - 1) as u8) == c {
        Some((n - 1) as u8)
    } else {
        inverse_upto(c, n - 1)
    }
}

/// The inverse mapping built from all 256 byte values. On colors that
/// several bytes share (none exist under the current arithmetic, but the
/// policy is part of the design) the highest byte wins.
pub open spec fn inverse_of(c: Color) -> Option<u8> {
    inverse_upto(c, 256)
}

/// Look a color up in the inverse mapping: the byte it decodes to, or
/// `None` for a color that no byte maps to.
pub fn color_to_byte(c: Color) -> (r: Option<u8>)
    ensures
        r == inverse_of(c),
{
    let mut i: u16 = 256;
    while i > 0
        invariant
            i <= 256,
            inverse_of(c) == inverse_upto(c, i as int),
        decreases i,
    {
        let b: u8 = (i - 1) as u8;
        if byte_to_color(b) == c {
            return Some(b);
        }
        i = i - 1;
    }
    None
}

/// No two distinct bytes are assigned the same color: the mapping is
/// injective over the whole byte domain, so the 256 colors are pairwise
/// distinct.
pub proof fn lemma_color_injective()
    ensures
        forall|x: u8, y: u8| x != y ==> color_of(x) != color_of(y),
{
    assert forall|x: u8, y: u8| x != y implies color_of(x) != color_of(y) by {
        assert(!(red_of(x) == red_of(y) && green_of(x) == green_of(y) && blue_of(x)
            == blue_of(y))) by (bit_vector)
            requires
                x != y,
        ;
    }
}

/// No byte between `b` (exclusive) and `n` (exclusive) shares `b`'s color,
/// so none of those later insertions shadows `b` in the inverse table.
proof fn lemma_inverse_upto_finds(b: u8, n: int)
    requires
        b < n <= 256,
        forall|x: u8, y: u8| x != y ==> color_of(x) != color_of(y),
    ensures
        inverse_upto(color_of(b), n) == Some(b),
    decreases n,
{
    if b < n - 1 {
        assert(color_of((n - 1) as u8) != color_of(b));
        lemma_inverse_upto_finds(b, n - 1);
    }
}

/// The inverse mapping sends each byte's color back to that byte: looking
/// up `color_of(b)` always recovers exactly `b`.
pub proof fn lemma_inverse_of_color(b: u8)
    ensures
        inverse_of(color_of(b)) == Some(b),
{
    lemma_color_injective();
    lemma_inverse_upto_finds(b, 256);
}

/// A color that no byte maps to never enters the table.
proof fn lemma_inverse_upto_none(c: Color, n: int)
    requires
        n <= 256,
        forall|k: u8| color_of(k) != c,
    ensures
        inverse_upto(c, n) == None::<u8>,
    decreases n,
{
    if n > 0 {
        lemma_inverse_upto_none(c, n - 1);
    }
}

/// A color that no byte maps to is absent from the inverse mapping, so the
/// decoder skips it.
pub proof fn lemma_inverse_of_unmapped(c: Color)
    requires
        forall|k: u8| color_of(k) != c,
    ensures
        inverse_of(c) == None::<u8>,
{
    lemma_inverse_upto_none(c, 256);
}

/// Every mapped color saturates at least one channel at 255, so the
/// all-zero black used to pad a canvas is never produced by the mapping.
pub proof fn lemma_black_unmapped()
    ensures
        forall|k: u8| color_of(k) != (Color { r: 0, g: 0, b: 0 }),
{
    assert forall|k: u8| color_of(k) != (Color { r: 0, g: 0, b: 0 }) by {
        assert(red_of(k) == 255 || green_of(k) == 255 || blue_of(k) == 255) by (bit_vector);
    }
}

} // verus!
