//! From decoded pixels to a frame buffer.
//!
//! A frame buffer holds one 32-bit number per pixel: eight bits of red, of
//! green and of blue, from bit 16, bit 8 and bit 0 on. Each channel is cut
//! down to its low eight bits, and alpha is left out.

use vstd::prelude::*;
use crate::image::{Image, Pixel};

verus! {

/// The frame-buffer value of a pixel.
pub open spec fn spec_pack(pixel: Pixel) -> int {
    (pixel.r % 0x100) * 0x1_0000 + (pixel.g % 0x100) * 0x100 + pixel.b % 0x100
}

/// The frame-buffer values of a row of pixels.
pub open spec fn spec_pack_all(pixels: Seq<Pixel>) -> Seq<u32> {
    Seq::new(pixels.len(), |i: int| spec_pack(pixels[i]) as u32)
}

/// Packs one pixel into a frame-buffer value.
pub fn pack_pixel(pixel: Pixel) -> (value: u32)
    ensures
        value as int == spec_pack(pixel),
        value <= 0xff_ffff,
{
    let r: u16 = pixel.r;
    let g: u16 = pixel.g;
    let b: u16 = pixel.b;
    assert((((r & 0xff) as u32) << 16 | ((g & 0xff) as u32) << 8 | (b & 0xff) as u32) == (r
        % 0x100) as u32 * 0x1_0000 + (g % 0x100) as u32 * 0x100 + (b % 0x100) as u32)
        by (bit_vector);
    ((r & 0xff) as u32) << 16 | ((g & 0xff) as u32) << 8 | (b & 0xff) as u32
}

/// Packs an image into a frame buffer, pixel by pixel in the same order.
pub fn pack_image(image: &Image) -> (buffer: Vec<u32>)
    ensures
        buffer@ == spec_pack_all(image@.pixels),
{
    let pixels = image.pixels();
    let mut buffer: Vec<u32> = Vec::new();
    let mut i: usize = 0;
    while i < pixels.len()
        invariant
            i <= pixels@.len(),
            pixels@ == image@.pixels,
            buffer@.len() == i,
            forall|j: int| 0 <= j < i ==> #[trigger] buffer@[j] as int == spec_pack(pixels@[j]),
        decreases pixels@.len() - i,
    {
        buffer.push(pack_pixel(pixels[i]));
        i += 1;
    }
    assert(buffer@ =~= spec_pack_all(image@.pixels));
    buffer
}

} // verus!
