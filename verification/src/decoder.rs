//! The decoder: fixed-width reads, one after the other.

use vstd::prelude::*;
use crate::bytes::{spec_u16_be, spec_u32_be, u16_be, u32_be};
use crate::format::{
    has_header, magic, spec_consumed, spec_decode, spec_height, spec_pixel_at, spec_pixels,
    spec_width,
};
use crate::image::{DecodeError, Image, ImageView, Pixel};
use crate::reader::Reader;

verus! {

/// Whether eight bytes are the signature.
fn is_magic(data: &[u8]) -> (yes: bool)
    requires
        data@.len() == 8,
    ensures
        yes == (data@ == magic()),
{
    let yes = data[0] == 0x66 && data[1] == 0x61 && data[2] == 0x72 && data[3] == 0x62 && data[4]
        == 0x66 && data[5] == 0x65 && data[6] == 0x6c && data[7] == 0x64;
    proof {
        if yes {
            assert(data@ =~= magic());
        } else {
            assert(magic()[0] == 0x66 && magic()[1] == 0x61 && magic()[2] == 0x72 && magic()[3]
                == 0x62 && magic()[4] == 0x66 && magic()[5] == 0x65 && magic()[6] == 0x6c
                && magic()[7] == 0x64);
        }
    }
    yes
}

/// Reads the signature. Eight bytes are read where there are eight; they
/// must be the signature.
pub fn read_header(reader: &mut Reader<'_>) -> (res: Result<(), DecodeError>)
    requires
        old(reader).wf(),
    ensures
        old(reader).remaining().len() < 8 ==> res == Err::<(), DecodeError>(
            DecodeError::TruncatedInput,
        ) && final(reader).advanced(*old(reader), 0),
        old(reader).remaining().len() >= 8 ==> final(reader).advanced(*old(reader), 8),
        old(reader).remaining().len() >= 8 && old(reader).remaining().subrange(0, 8) == magic()
            ==> res == Ok::<(), DecodeError>(()),
        old(reader).remaining().len() >= 8 && old(reader).remaining().subrange(0, 8) != magic()
            ==> res == Err::<(), DecodeError>(DecodeError::BadMagic),
{
    let got = reader.read_exact(8)?;
    if is_magic(got) {
        Ok(())
    } else {
        Err(DecodeError::BadMagic)
    }
}

/// Reads a big-endian 32-bit number: four bytes, or none where fewer are
/// left.
pub fn read_u32(reader: &mut Reader<'_>) -> (res: Result<u32, DecodeError>)
    requires
        old(reader).wf(),
    ensures
        (match res {
            Ok(value) => {
                &&& old(reader).remaining().len() >= 4
                &&& value as int == spec_u32_be(old(reader).remaining())
                &&& final(reader).advanced(*old(reader), 4)
            },
            Err(e) => {
                &&& old(reader).remaining().len() < 4
                &&& e == DecodeError::TruncatedInput
                &&& final(reader).advanced(*old(reader), 0)
            },
        }),
{
    let got = reader.read_exact(4)?;
    Ok(u32_be(got))
}

/// Reads a big-endian 16-bit number: two bytes, or none where fewer are
/// left.
pub fn read_u16(reader: &mut Reader<'_>) -> (res: Result<u16, DecodeError>)
    requires
        old(reader).wf(),
    ensures
        (match res {
            Ok(value) => {
                &&& old(reader).remaining().len() >= 2
                &&& value as int == spec_u16_be(old(reader).remaining())
                &&& final(reader).advanced(*old(reader), 2)
            },
            Err(e) => {
                &&& old(reader).remaining().len() < 2
                &&& e == DecodeError::TruncatedInput
                &&& final(reader).advanced(*old(reader), 0)
            },
        }),
{
    let got = reader.read_exact(2)?;
    Ok(u16_be(got))
}

/// Reads one pixel: red, green, blue and alpha, each a 16-bit number. The
/// first channel that is cut short ends the read, and the reader stays in
/// front of it.
fn read_pixel(reader: &mut Reader<'_>) -> (res: Result<Pixel, DecodeError>)
    requires
        old(reader).wf(),
    ensures
        (match res {
            Ok(pixel) => {
                &&& old(reader).remaining().len() >= 8
                &&& pixel == spec_pixel_at(old(reader).remaining(), 0)
                &&& final(reader).advanced(*old(reader), 8)
            },
            Err(e) => {
                &&& old(reader).remaining().len() < 8
                &&& e == DecodeError::TruncatedInput
                &&& final(reader).advanced(
                    *old(reader),
                    2 * (old(reader).remaining().len() as int / 2),
                )
            },
        }),
{
    let r = read_u16(reader)?;
    let g = read_u16(reader)?;
    let b = read_u16(reader)?;
    let a = read_u16(reader)?;
    Ok(Pixel { r, g, b, a })
}

/// Reads `length` pixels, one after the other. Where the input ends before
/// the last of them, no pixel is returned, and the reader stays in front of
/// the channel that was cut short.
pub fn read_image_data(reader: &mut Reader<'_>, length: usize) -> (res: Result<
    Vec<Pixel>,
    DecodeError,
>)
    requires
        old(reader).wf(),
    ensures
        (match res {
            Ok(pixels) => {
                &&& old(reader).remaining().len() >= 8 * length
                &&& pixels@ == spec_pixels(old(reader).remaining(), length as nat)
                &&& final(reader).advanced(*old(reader), 8 * length)
            },
            Err(e) => {
                &&& old(reader).remaining().len() < 8 * length
                &&& e == DecodeError::TruncatedInput
                &&& final(reader).advanced(
                    *old(reader),
                    2 * (old(reader).remaining().len() as int / 2),
                )
            },
        }),
{
    let ghost input = reader.remaining();
    let mut pixels: Vec<Pixel> = Vec::new();
    let mut i: usize = 0;
    while i < length
        invariant
            i <= length,
            input == old(reader).remaining(),
            reader.advanced(*old(reader), 8 * i),
            8 * i <= input.len(),
            pixels@.len() == i,
            forall|j: int| 0 <= j < i ==> #[trigger] pixels@[j] == spec_pixel_at(input, 8 * j),
        decreases length - i,
    {
        let ghost here = reader.remaining();
        match read_pixel(reader) {
            Ok(pixel) => {
                assert(pixel == spec_pixel_at(input, 8 * i)) by {
                    assert(here.subrange(0, 2) =~= input.subrange(8 * i, 8 * i + 2));
                    assert(here.subrange(2, 4) =~= input.subrange(8 * i + 2, 8 * i + 4));
                    assert(here.subrange(4, 6) =~= input.subrange(8 * i + 4, 8 * i + 6));
                    assert(here.subrange(6, 8) =~= input.subrange(8 * i + 6, 8 * i + 8));
                }
                pixels.push(pixel);
                i += 1;
            },
            Err(e) => {
                return Err(e);
            },
        }
    }
    assert(pixels@ =~= spec_pixels(input, length as nat));
    Ok(pixels)
}

/// A grid without columns or without rows has no places.
proof fn lemma_empty_grid(width: nat, height: nat)
    ensures
        width == 0 || height == 0 ==> width * height == 0,
{
    assert(width == 0 || height == 0 ==> width * height == 0) by (nonlinear_arith);
}

/// Decodes an image: the signature, the width, the height, and then
/// `width * height` pixels. Bytes after the last pixel are left unread.
pub fn decode(reader: &mut Reader<'_>) -> (res: Result<Image, DecodeError>)
    requires
        old(reader).wf(),
    ensures
        (match res {
            Ok(image) => image.wf() && spec_decode(old(reader).remaining()) == Ok::<
                ImageView,
                DecodeError,
            >(image@),
            Err(e) => spec_decode(old(reader).remaining()) == Err::<ImageView, DecodeError>(e),
        }),
        final(reader).advanced(*old(reader), spec_consumed(old(reader).remaining()) as int),
        // An image has a pixel for each place, and reading it takes the
        // header and eight bytes a pixel.
        res matches Ok(image) ==> image@.pixels.len() == image@.width * image@.height,
        res matches Ok(image) ==> final(reader).consumed() == old(reader).consumed() + 16
            + image@.width * image@.height * 8,
        // Fewer than eight bytes are no image.
        old(reader).remaining().len() < 8 ==> res matches Err(DecodeError::TruncatedInput),
        // Eight bytes that are not the signature are no image, whatever
        // follows them.
        old(reader).remaining().len() >= 8 && old(reader).remaining().subrange(0, 8) != magic()
            ==> res matches Err(DecodeError::BadMagic),
        // An image without columns or without rows is a header alone.
        has_header(old(reader).remaining()) && (spec_width(old(reader).remaining()) == 0
            || spec_height(old(reader).remaining()) == 0) ==> (res matches Ok(image)
            && image@.pixels.len() == 0) && final(reader).consumed() == old(reader).consumed()
            + 16,
{
    let ghost input = reader.remaining();
    proof {
        lemma_empty_grid(spec_width(input), spec_height(input));
    }
    read_header(reader)?;
    let width = read_u32(reader)?;
    let height = read_u32(reader)?;
    let count = match (width as usize).checked_mul(height as usize) {
        Some(count) => count,
        None => {
            return Err(DecodeError::MalformedDimensions);
        },
    };
    if count.checked_mul(8).is_none() {
        return Err(DecodeError::MalformedDimensions);
    }
    let ghost body = reader.remaining();
    let pixels = read_image_data(reader, count)?;
    let image = Image { width, height, pixels };
    proof {
        assert(body =~= input.subrange(16, input.len() as int));
        assert(spec_width(input) == width);
        assert(spec_height(input) == height);
        assert(count == spec_width(input) * spec_height(input));
        assert(image@.pixels == spec_pixels(body, count as nat));
    }
    Ok(image)
}

} // verus!
