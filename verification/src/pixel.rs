//! The pixel codec: packing and unpacking of 32-bit RGBA pixels.
//!
//! A pixel is byte-packed as alpha (bits 24..32), green (16..24),
//! blue (8..16) and red (0..8):
//!
//! ```txt
//! AAAAAAAA GGGGGGGG BBBBBBBB RRRRRRRR
//! ```
//!
//! The alpha byte is always the high byte. All operations are pure bit
//! masking and shifting and none can fail; setting one channel never
//! perturbs any other channel's bits.

use vstd::prelude::*;

verus! {

/// 32 bits broken into 24 bits of RGB plus 8 bits of alpha.
pub type NcPixel = u32;

/// An 8-bit colour component.
pub type NcColor = u8;

/// The alpha component of a pixel.
pub open spec fn pixel_a(pixel: u32) -> u8 {
    ((pixel & 0xff00_0000) >> 24) as u8
}

/// The green component of a pixel.
pub open spec fn pixel_g(pixel: u32) -> u8 {
    ((pixel & 0x00ff_0000) >> 16) as u8
}

/// The blue component of a pixel.
pub open spec fn pixel_b(pixel: u32) -> u8 {
    ((pixel & 0x0000_ff00) >> 8) as u8
}

/// The red component of a pixel.
pub open spec fn pixel_r(pixel: u32) -> u8 {
    (pixel & 0x0000_00ff) as u8
}

/// The pixel that packs the given red, green and blue components with an
/// opaque (0xff) alpha byte.
pub open spec fn pixel_pack(r: u8, g: u8, b: u8) -> u32 {
    0xff00_0000u32 | (r as u32) | ((b as u32) << 8) | ((g as u32) << 16)
}

/// `pixel` with its alpha byte replaced by `alpha`.
pub open spec fn pixel_with_a(pixel: u32, alpha: u8) -> u32 {
    (pixel & 0x00ff_ffff) | ((alpha as u32) << 24)
}

/// `pixel` with its green byte replaced by `green`.
pub open spec fn pixel_with_g(pixel: u32, green: u8) -> u32 {
    (pixel & 0xff00_ffff) | ((green as u32) << 16)
}

/// `pixel` with its blue byte replaced by `blue`.
pub open spec fn pixel_with_b(pixel: u32, blue: u8) -> u32 {
    (pixel & 0xffff_00ff) | ((blue as u32) << 8)
}

/// `pixel` with its red byte replaced by `red`.
pub open spec fn pixel_with_r(pixel: u32, red: u8) -> u32 {
    (pixel & 0xffff_ff00) | (red as u32)
}

/// Law: packing RGB components round-trips losslessly, and packing fixes the
/// alpha byte at 0xff. Extracting any component of `pixel_pack(r, g, b)`
/// yields the component that was packed.
pub proof fn lemma_pixel_pack_round_trip(r: u8, g: u8, b: u8)
    by (bit_vector)
    ensures
        pixel_r(pixel_pack(r, g, b)) == r,
        pixel_g(pixel_pack(r, g, b)) == g,
        pixel_b(pixel_pack(r, g, b)) == b,
        pixel_a(pixel_pack(r, g, b)) == 0xff,
{
}

/// Law: replacing the alpha byte stores exactly that byte and leaves the
/// red, green and blue bytes unchanged.
pub proof fn lemma_pixel_set_a_isolated(pixel: u32, alpha: u8)
    by (bit_vector)
    ensures
        pixel_a(pixel_with_a(pixel, alpha)) == alpha,
        pixel_r(pixel_with_a(pixel, alpha)) == pixel_r(pixel),
        pixel_g(pixel_with_a(pixel, alpha)) == pixel_g(pixel),
        pixel_b(pixel_with_a(pixel, alpha)) == pixel_b(pixel),
{
}

/// Law: replacing the green byte stores exactly that byte and leaves the
/// alpha, red and blue bytes unchanged.
pub proof fn lemma_pixel_set_g_isolated(pixel: u32, green: u8)
    by (bit_vector)
    ensures
        pixel_g(pixel_with_g(pixel, green)) == green,
        pixel_a(pixel_with_g(pixel, green)) == pixel_a(pixel),
        pixel_r(pixel_with_g(pixel, green)) == pixel_r(pixel),
        pixel_b(pixel_with_g(pixel, green)) == pixel_b(pixel),
{
}

/// Law: replacing the blue byte stores exactly that byte and leaves the
/// alpha, red and green bytes unchanged.
pub proof fn lemma_pixel_set_b_isolated(pixel: u32, blue: u8)
    by (bit_vector)
    ensures
        pixel_b(pixel_with_b(pixel, blue)) == blue,
        pixel_a(pixel_with_b(pixel, blue)) == pixel_a(pixel),
        pixel_r(pixel_with_b(pixel, blue)) == pixel_r(pixel),
        pixel_g(pixel_with_b(pixel, blue)) == pixel_g(pixel),
{
}

/// Law: replacing the red byte stores exactly that byte and leaves the
/// alpha, green and blue bytes unchanged.
pub proof fn lemma_pixel_set_r_isolated(pixel: u32, red: u8)
    by (bit_vector)
    ensures
        pixel_r(pixel_with_r(pixel, red)) == red,
        pixel_a(pixel_with_r(pixel, red)) == pixel_a(pixel),
        pixel_g(pixel_with_r(pixel, red)) == pixel_g(pixel),
        pixel_b(pixel_with_r(pixel, red)) == pixel_b(pixel),
{
}

/// Builds an RGB pixel from its components, with an opaque alpha byte.
pub fn ncpixel(r: NcColor, g: NcColor, b: NcColor) -> (pixel: NcPixel)
    ensures
        pixel == pixel_pack(r, g, b),
        pixel_r(pixel) == r,
        pixel_g(pixel) == g,
        pixel_b(pixel) == b,
        pixel_a(pixel) == 0xff,
{
    proof {
        lemma_pixel_pack_round_trip(r, g, b);
    }
    0xff00_0000u32 | (r as u32) | ((b as u32) << 8) | ((g as u32) << 16)
}

/// Extracts the 8-bit alpha component from a pixel.
pub fn ncpixel_a(pixel: NcPixel) -> (a: NcColor)
    ensures
        a == pixel_a(pixel),
{
    ((pixel & 0xff00_0000) >> 24) as u8
}

/// Extracts the 8-bit green component from a pixel.
pub fn ncpixel_g(pixel: NcPixel) -> (g: NcColor)
    ensures
        g == pixel_g(pixel),
{
    ((pixel & 0x00ff_0000) >> 16) as u8
}

/// Extracts the 8-bit blue component from a pixel.
pub fn ncpixel_b(pixel: NcPixel) -> (b: NcColor)
    ensures
        b == pixel_b(pixel),
{
    ((pixel & 0x0000_ff00) >> 8) as u8
}

/// Extracts the 8-bit red component from a pixel.
pub fn ncpixel_r(pixel: NcPixel) -> (r: NcColor)
    ensures
        r == pixel_r(pixel),
{
    (pixel & 0x0000_00ff) as u8
}

/// Sets the 8-bit alpha component of a pixel; the other channels keep
/// their values.
pub fn ncpixel_set_a(pixel: &mut NcPixel, alpha: NcColor)
    ensures
        *final(pixel) == pixel_with_a(*old(pixel), alpha),
        pixel_a(*final(pixel)) == alpha,
        pixel_r(*final(pixel)) == pixel_r(*old(pixel)),
        pixel_g(*final(pixel)) == pixel_g(*old(pixel)),
        pixel_b(*final(pixel)) == pixel_b(*old(pixel)),
{
    proof {
        lemma_pixel_set_a_isolated(*pixel, alpha);
    }
    *pixel = (*pixel & 0x00ff_ffff) | ((alpha as u32) << 24);
}

/// Sets the 8-bit green component of a pixel; the other channels keep
/// their values.
pub fn ncpixel_set_g(pixel: &mut NcPixel, green: NcColor)
    ensures
        *final(pixel) == pixel_with_g(*old(pixel), green),
        pixel_g(*final(pixel)) == green,
        pixel_a(*final(pixel)) == pixel_a(*old(pixel)),
        pixel_r(*final(pixel)) == pixel_r(*old(pixel)),
        pixel_b(*final(pixel)) == pixel_b(*old(pixel)),
{
    proof {
        lemma_pixel_set_g_isolated(*pixel, green);
    }
    *pixel = (*pixel & 0xff00_ffff) | ((green as u32) << 16);
}

/// Sets the 8-bit blue component of a pixel; the other channels keep
/// their values.
pub fn ncpixel_set_b(pixel: &mut NcPixel, blue: NcColor)
    ensures
        *final(pixel) == pixel_with_b(*old(pixel), blue),
        pixel_b(*final(pixel)) == blue,
        pixel_a(*final(pixel)) == pixel_a(*old(pixel)),
        pixel_r(*final(pixel)) == pixel_r(*old(pixel)),
        pixel_g(*final(pixel)) == pixel_g(*old(pixel)),
{
    proof {
        lemma_pixel_set_b_isolated(*pixel, blue);
    }
    *pixel = (*pixel & 0xffff_00ff) | ((blue as u32) << 8);
}

/// Sets the 8-bit red component of a pixel; the other channels keep
/// their values.
pub fn ncpixel_set_r(pixel: &mut NcPixel, red: NcColor)
    ensures
        *final(pixel) == pixel_with_r(*old(pixel), red),
        pixel_r(*final(pixel)) == red,
        pixel_a(*final(pixel)) == pixel_a(*old(pixel)),
        pixel_g(*final(pixel)) == pixel_g(*old(pixel)),
        pixel_b(*final(pixel)) == pixel_b(*old(pixel)),
{
    proof {
        lemma_pixel_set_r_isolated(*pixel, red);
    }
    *pixel = (*pixel & 0xffff_ff00) | (red as u32);
}

/// Sets the RGB components of a pixel in one call; the alpha byte keeps
/// its value.
pub fn ncpixel_set_rgb(pixel: &mut NcPixel, red: NcColor, green: NcColor, blue: NcColor)
    ensures
        *final(pixel) == pixel_with_b(pixel_with_g(pixel_with_r(*old(pixel), red), green), blue),
        pixel_r(*final(pixel)) == red,
        pixel_g(*final(pixel)) == green,
        pixel_b(*final(pixel)) == blue,
        pixel_a(*final(pixel)) == pixel_a(*old(pixel)),
{
    ncpixel_set_r(pixel, red);
    ncpixel_set_g(pixel, green);
    ncpixel_set_b(pixel, blue);
}

} // verus!
