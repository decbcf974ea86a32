//! Colours: three channels and an intensity, packed as `0x00RRGGBB`.

use vstd::prelude::*;
use vstd::std_specs::convert::FromSpecImpl;
use crate::fixed::{Fixed, ONE_RAW, lemma_raw_product_fits};
use crate::ratio::trunc_div;

verus! {

/// A colour: red, green and blue channels, and the intensity `h` by which
/// they are multiplied when the colour is packed.
#[derive(Debug, Clone, Copy, PartialEq, Eq, Structural)]
pub struct Color {
    pub r: u8,
    pub g: u8,
    pub b: u8,
    pub h: Fixed,
}

/// Three channels packed as `0x00RRGGBB`.
pub open spec fn pack(r: u8, g: u8, b: u8) -> u32 {
    ((r as u32) << 16) | ((g as u32) << 8) | (b as u32)
}

/// The red channel of a packed colour.
pub open spec fn red_of(c: u32) -> u8 {
    ((c >> 16) & 0xff) as u8
}

/// The green channel of a packed colour.
pub open spec fn green_of(c: u32) -> u8 {
    ((c >> 8) & 0xff) as u8
}

/// The blue channel of a packed colour.
pub open spec fn blue_of(c: u32) -> u8 {
    (c & 0xff) as u8
}

/// A channel multiplied by the intensity `h`, rounded towards zero and held
/// to the range of a channel: an intensity above one cannot spill into the
/// neighbouring channel, nor a negative one wrap around.
pub open spec fn shade_channel(c: u8, h: Fixed) -> u8 {
    let v = trunc_div(c * h.raw, ONE_RAW as int);
    if v < 0 {
        0u8
    } else if v > 255 {
        255u8
    } else {
        v as u8
    }
}

/// A packed colour with each channel multiplied by the intensity `h`.
pub open spec fn shade(c: u32, h: Fixed) -> u32 {
    pack(shade_channel(red_of(c), h), shade_channel(green_of(c), h), shade_channel(blue_of(c), h))
}

/// Unpacking a packed colour gives back its three channels.
pub proof fn lemma_pack_round_trip(r: u8, g: u8, b: u8)
    ensures
        red_of(pack(r, g, b)) == r,
        green_of(pack(r, g, b)) == g,
        blue_of(pack(r, g, b)) == b,
{
    assert((((((r as u32) << 16) | ((g as u32) << 8) | (b as u32)) >> 16) & 0xff) as u8 == r)
        by (bit_vector);
    assert((((((r as u32) << 16) | ((g as u32) << 8) | (b as u32)) >> 8) & 0xff) as u8 == g)
        by (bit_vector);
    assert(((((r as u32) << 16) | ((g as u32) << 8) | (b as u32)) & 0xff) as u8 == b)
        by (bit_vector);
}

/// At full intensity a colour packs its channels as they are.
pub proof fn lemma_full_intensity(r: u8, g: u8, b: u8)
    ensures
        (Color { r, g, b, h: Fixed { raw: ONE_RAW } }).packed() == pack(r, g, b),
        pack(r, g, b) == r * 65536 + g * 256 + b,
{
    assert(((r as u32) << 16) | ((g as u32) << 8) | (b as u32) == (r as u32) * 65536 + (g as u32)
        * 256 + (b as u32)) by (bit_vector);
}

/// Multiplies one channel by an intensity.
fn shaded_channel(c: u8, h: Fixed) -> (s: u8)
    ensures
        s == shade_channel(c, h),
{
    proof {
        lemma_raw_product_fits(c as int, h.raw as int);
    }
    let v: i64 = (c as i64 * h.raw as i64) / ONE_RAW as i64;
    if v < 0 {
        0
    } else if v > 255 {
        255
    } else {
        v as u8
    }
}

/// Packs three channels as `0x00RRGGBB`.
fn packed(r: u8, g: u8, b: u8) -> (c: u32)
    ensures
        c == pack(r, g, b),
{
    ((r as u32) << 16) | ((g as u32) << 8) | (b as u32)
}

impl Color {
    /// The packed form of the colour: each channel multiplied by the
    /// intensity, then the three packed as `0x00RRGGBB`.
    pub open spec fn packed(self) -> u32 {
        pack(
            shade_channel(self.r, self.h),
            shade_channel(self.g, self.h),
            shade_channel(self.b, self.h),
        )
    }

    /// The colour of the given channels at full intensity.
    pub fn rgb(r: u8, g: u8, b: u8) -> (c: Color)
        ensures
            c == (Color { r, g, b, h: Fixed { raw: ONE_RAW } }),
    {
        Color { r, g, b, h: Fixed::one() }
    }

    /// Multiplies the intensity of the colour by `h`.
    pub fn dim(&mut self, h: Fixed)
        ensures
            *final(self) == (Color { h: old(self).h.times_spec(h), ..*old(self) }),
    {
        self.h = self.h.times(h);
    }

    pub fn blue() -> (c: Color)
        ensures
            c == (Color { r: 0, g: 0, b: 255, h: Fixed { raw: ONE_RAW } }),
    {
        Color::rgb(0, 0, 255)
    }

    pub fn red() -> (c: Color)
        ensures
            c == (Color { r: 255, g: 0, b: 0, h: Fixed { raw: ONE_RAW } }),
    {
        Color::rgb(255, 0, 0)
    }

    pub fn green() -> (c: Color)
        ensures
            c == (Color { r: 0, g: 255, b: 0, h: Fixed { raw: ONE_RAW } }),
    {
        Color::rgb(0, 255, 0)
    }

    pub fn yellow() -> (c: Color)
        ensures
            c == (Color { r: 255, g: 255, b: 0, h: Fixed { raw: ONE_RAW } }),
    {
        Color::rgb(255, 255, 0)
    }

    pub fn purple() -> (c: Color)
        ensures
            c == (Color { r: 255, g: 0, b: 255, h: Fixed { raw: ONE_RAW } }),
    {
        Color::rgb(255, 0, 255)
    }

    pub fn cyan() -> (c: Color)
        ensures
            c == (Color { r: 0, g: 255, b: 255, h: Fixed { raw: ONE_RAW } }),
    {
        Color::rgb(0, 255, 255)
    }
}

impl From<Color> for u32 {
    /// Packs the colour, its channels multiplied by its intensity.
    fn from(c: Color) -> (packed_color: u32) {
        packed(shaded_channel(c.r, c.h), shaded_channel(c.g, c.h), shaded_channel(c.b, c.h))
    }
}

impl FromSpecImpl<Color> for u32 {
    open spec fn obeys_from_spec() -> bool {
        true
    }

    open spec fn from_spec(c: Color) -> u32 {
        c.packed()
    }
}

impl From<u32> for Color {
    /// The colour that `c` packs, at full intensity.
    fn from(c: u32) -> (color: Color) {
        let r: u32 = (c >> 16) & 0xff;
        let g: u32 = (c >> 8) & 0xff;
        let b: u32 = c & 0xff;
        assert(((c >> 16) & 0xff) < 256 && ((c >> 8) & 0xff) < 256 && (c & 0xff) < 256)
            by (bit_vector);
        Color::rgb(r as u8, g as u8, b as u8)
    }
}

impl FromSpecImpl<u32> for Color {
    open spec fn obeys_from_spec() -> bool {
        true
    }

    open spec fn from_spec(c: u32) -> Color {
        Color { r: red_of(c), g: green_of(c), b: blue_of(c), h: Fixed { raw: ONE_RAW } }
    }
}

/// A packed colour with each channel multiplied by the intensity `h`.
pub fn shaded(c: u32, h: Fixed) -> (s: u32)
    ensures
        s == shade(c, h),
{
    let full = Color::from(c);
    u32::from(Color { r: full.r, g: full.g, b: full.b, h })
}

} // verus!
