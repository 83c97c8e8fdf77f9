//! Pixel-level normalization of source images: palette recoloring by color
//! mapping, and the fixed magenta-as-transparent key.  Pixels are RGBA
//! bytes, as image buffers store them; decoding an image file into such a
//! buffer (and uploading the result) is the host's business.

use vstd::prelude::*;

use crate::plugin::{ColorMapping, ColorMappingChannel};

verus! {

/// One RGBA pixel, one byte per channel.
#[derive(PartialEq, Eq, Structural, Clone, Copy, Debug)]
pub struct Rgba8 {
    pub r: u8,
    pub g: u8,
    pub b: u8,
    pub a: u8,
}

/// The reserved transparency key: full magenta.
pub open spec fn is_transparent_key(p: Rgba8) -> bool {
    p == (Rgba8 { r: 255, g: 0, b: 255, a: 255 })
}

/// The target color scaled by a channel brightness, opaque.
pub open spec fn spec_scaled(target: crate::plugin::Rgb, brightness: u8) -> Rgba8 {
    Rgba8 {
        r: ((target.r * brightness) / 255) as u8,
        g: ((target.g * brightness) / 255) as u8,
        b: ((target.b * brightness) / 255) as u8,
        a: 255,
    }
}

/// One pixel under a color mapping: a pixel where only the selected channel
/// is nonzero becomes the target color scaled by that channel's brightness;
/// any other pixel — and every pixel under the passthrough mapping — is left
/// as it is.
pub open spec fn spec_recolored(p: Rgba8, m: ColorMapping) -> Rgba8 {
    match m.channel {
        ColorMappingChannel::NoRecolor => p,
        ColorMappingChannel::Red => if p.g == 0 && p.b == 0 {
            spec_scaled(m.target, p.r)
        } else {
            p
        },
        ColorMappingChannel::Green => if p.r == 0 && p.b == 0 {
            spec_scaled(m.target, p.g)
        } else {
            p
        },
        ColorMappingChannel::Blue => if p.r == 0 && p.g == 0 {
            spec_scaled(m.target, p.b)
        } else {
            p
        },
    }
}

/// One pixel under the transparency rule: the magenta key becomes fully
/// transparent white, everything else is kept.
pub open spec fn spec_keyed(p: Rgba8) -> Rgba8 {
    if is_transparent_key(p) {
        Rgba8 { r: 255, g: 255, b: 255, a: 0 }
    } else {
        p
    }
}

fn scale_channel(t: u8, brightness: u8) -> (r: u8)
    ensures
        r == (t * brightness) / 255,
{
    proof {
        assert(t * brightness <= 65025) by (nonlinear_arith)
            requires
                t <= 255,
                brightness <= 255,
        ;
    }
    ((t as u32 * brightness as u32) / 255) as u8
}

/// Applies one color mapping to every pixel of an image buffer.
pub fn map_colors(pixels: &mut Vec<Rgba8>, mapping: &ColorMapping)
    ensures
        final(pixels)@.len() == old(pixels)@.len(),
        forall|i: int|
            0 <= i < old(pixels)@.len() ==> final(pixels)@[i] == spec_recolored(
                old(pixels)@[i],
                *mapping,
            ),
{
    let n = pixels.len();
    let mut i: usize = 0;
    while i < n
        invariant
            0 <= i <= n,
            n == pixels@.len(),
            pixels@.len() == old(pixels)@.len(),
            forall|j: int|
                0 <= j < i ==> pixels@[j] == spec_recolored(old(pixels)@[j], *mapping),
            forall|j: int| i <= j < n ==> pixels@[j] == old(pixels)@[j],
        decreases n - i,
    {
        let p = pixels[i];
        let replacement = match mapping.channel {
            ColorMappingChannel::NoRecolor => p,
            ColorMappingChannel::Red => if p.g == 0 && p.b == 0 {
                Rgba8 {
                    r: scale_channel(mapping.target.r, p.r),
                    g: scale_channel(mapping.target.g, p.r),
                    b: scale_channel(mapping.target.b, p.r),
                    a: 255,
                }
            } else {
                p
            },
            ColorMappingChannel::Green => if p.r == 0 && p.b == 0 {
                Rgba8 {
                    r: scale_channel(mapping.target.r, p.g),
                    g: scale_channel(mapping.target.g, p.g),
                    b: scale_channel(mapping.target.b, p.g),
                    a: 255,
                }
            } else {
                p
            },
            ColorMappingChannel::Blue => if p.r == 0 && p.g == 0 {
                Rgba8 {
                    r: scale_channel(mapping.target.r, p.b),
                    g: scale_channel(mapping.target.g, p.b),
                    b: scale_channel(mapping.target.b, p.b),
                    a: 255,
                }
            } else {
                p
            },
        };
        pixels[i] = replacement;
        i = i + 1;
    }
}

/// Applies the transparency key to every pixel of an image buffer.
pub fn make_transparent(pixels: &mut Vec<Rgba8>)
    ensures
        final(pixels)@.len() == old(pixels)@.len(),
        forall|i: int|
            0 <= i < old(pixels)@.len() ==> final(pixels)@[i] == spec_keyed(old(pixels)@[i]),
{
    let n = pixels.len();
    let mut i: usize = 0;
    while i < n
        invariant
            0 <= i <= n,
            n == pixels@.len(),
            pixels@.len() == old(pixels)@.len(),
            forall|j: int| 0 <= j < i ==> pixels@[j] == spec_keyed(old(pixels)@[j]),
            forall|j: int| i <= j < n ==> pixels@[j] == old(pixels)@[j],
        decreases n - i,
    {
        let p = pixels[i];
        if p.r == 255 && p.g == 0 && p.b == 255 && p.a == 255 {
            pixels[i] = Rgba8 { r: 255, g: 255, b: 255, a: 0 };
        }
        i = i + 1;
    }
}

} // verus!
