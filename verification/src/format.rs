//! The byte layout, as mathematics.
//!
//! | offset | bytes | field |
//! |---|---|---|
//! | 0 | 8 | the signature `farbfeld` |
//! | 8 | 4 | width, big-endian |
//! | 12 | 4 | height, big-endian |
//! | 16 | 8 each | the pixels, row by row: red, green, blue, alpha, big-endian |

use vstd::prelude::*;
use crate::bytes::{
    lemma_u16_bytes_spell, lemma_u32_bytes_spell, spec_u16_be, spec_u16_bytes, spec_u32_be,
    spec_u32_bytes,
};
use crate::image::{DecodeError, ImageView, Pixel};

verus! {

/// The signature: the ASCII bytes of `farbfeld`.
pub open spec fn magic() -> Seq<u8> {
    seq![0x66u8, 0x61u8, 0x72u8, 0x62u8, 0x66u8, 0x65u8, 0x6cu8, 0x64u8]
}

/// The stream starts with a whole header: the signature and both sizes.
pub open spec fn has_header(s: Seq<u8>) -> bool {
    s.len() >= 16 && s.subrange(0, 8) == magic()
}

/// The width that a header announces.
pub open spec fn spec_width(s: Seq<u8>) -> nat
    recommends
        s.len() >= 16,
{
    spec_u32_be(s.subrange(8, 12)) as nat
}

/// The height that a header announces.
pub open spec fn spec_height(s: Seq<u8>) -> nat
    recommends
        s.len() >= 16,
{
    spec_u32_be(s.subrange(12, 16)) as nat
}

/// The pixel that the eight bytes from `at` on spell.
pub open spec fn spec_pixel_at(s: Seq<u8>, at: int) -> Pixel
    recommends
        0 <= at,
        at + 8 <= s.len(),
{
    Pixel {
        r: spec_u16_be(s.subrange(at, at + 2)) as u16,
        g: spec_u16_be(s.subrange(at + 2, at + 4)) as u16,
        b: spec_u16_be(s.subrange(at + 4, at + 6)) as u16,
        a: spec_u16_be(s.subrange(at + 6, at + 8)) as u16,
    }
}

/// The first `count` pixels that `s` spells.
pub open spec fn spec_pixels(s: Seq<u8>, count: nat) -> Seq<Pixel>
    recommends
        8 * count <= s.len(),
{
    Seq::new(count, |i: int| spec_pixel_at(s, 8 * i))
}

/// What a stream of bytes decodes to. Bytes after the last pixel do not
/// count.
pub open spec fn spec_decode(s: Seq<u8>) -> Result<ImageView, DecodeError> {
    if s.len() < 8 {
        Err(DecodeError::TruncatedInput)
    } else if s.subrange(0, 8) != magic() {
        Err(DecodeError::BadMagic)
    } else if s.len() < 16 {
        Err(DecodeError::TruncatedInput)
    } else if spec_width(s) * spec_height(s) * 8 > usize::MAX {
        Err(DecodeError::MalformedDimensions)
    } else if s.len() < 16 + spec_width(s) * spec_height(s) * 8 {
        Err(DecodeError::TruncatedInput)
    } else {
        Ok(
            ImageView {
                width: spec_width(s),
                height: spec_height(s),
                pixels: spec_pixels(
                    s.subrange(16, s.len() as int),
                    spec_width(s) * spec_height(s),
                ),
            },
        )
    }
}

/// How many bytes of a stream decoding reads: all of the image where there
/// is one, and otherwise every whole field before the one that is wrong or
/// cut short.
pub open spec fn spec_consumed(s: Seq<u8>) -> nat {
    if s.len() < 8 {
        0
    } else if s.subrange(0, 8) != magic() {
        8
    } else if s.len() < 12 {
        8
    } else if s.len() < 16 {
        12
    } else if spec_width(s) * spec_height(s) * 8 > usize::MAX {
        16
    } else if s.len() < 16 + spec_width(s) * spec_height(s) * 8 {
        (16 + 2 * ((s.len() - 16) / 2)) as nat
    } else {
        16 + spec_width(s) * spec_height(s) * 8
    }
}

/// The eight bytes that spell a pixel.
pub open spec fn spec_pixel_bytes(pixel: Pixel) -> Seq<u8> {
    spec_u16_bytes(pixel.r) + spec_u16_bytes(pixel.g) + spec_u16_bytes(pixel.b) + spec_u16_bytes(
        pixel.a,
    )
}

/// The bytes that spell a row of pixels, eight for each.
pub open spec fn spec_pixels_bytes(pixels: Seq<Pixel>) -> Seq<u8> {
    Seq::new(8 * pixels.len(), |k: int| spec_pixel_bytes(pixels[k / 8])[k % 8])
}

/// The bytes that spell an image: the signature, the sizes, the pixels.
pub open spec fn spec_encode(image: ImageView) -> Seq<u8>
    recommends
        image.wf(),
{
    magic() + spec_u32_bytes(image.width as u32) + spec_u32_bytes(image.height as u32)
        + spec_pixels_bytes(image.pixels)
}

/// Among the bytes that spell a row of pixels, those from `8 * i` on spell
/// its pixel `i`.
proof fn lemma_pixel_bytes_spell(pixels: Seq<Pixel>, rest: Seq<u8>, i: int)
    requires
        0 <= i < pixels.len(),
    ensures
        spec_pixel_at(spec_pixels_bytes(pixels) + rest, 8 * i) == pixels[i],
{
    let s = spec_pixels_bytes(pixels) + rest;
    let p = pixels[i];
    assert forall|k: int| 0 <= k < 8 implies s[8 * i + k] == #[trigger] spec_pixel_bytes(p)[k] by {
        assert((8 * i + k) / 8 == i);
        assert((8 * i + k) % 8 == k);
        assert(s[8 * i + k] == spec_pixels_bytes(pixels)[8 * i + k]);
    }
    let e = spec_pixel_bytes(p);
    assert(e[0] == spec_u16_bytes(p.r)[0] && e[1] == spec_u16_bytes(p.r)[1]);
    assert(e[2] == spec_u16_bytes(p.g)[0] && e[3] == spec_u16_bytes(p.g)[1]);
    assert(e[4] == spec_u16_bytes(p.b)[0] && e[5] == spec_u16_bytes(p.b)[1]);
    assert(e[6] == spec_u16_bytes(p.a)[0] && e[7] == spec_u16_bytes(p.a)[1]);
    lemma_u16_bytes_spell(p.r, Seq::empty());
    lemma_u16_bytes_spell(p.g, Seq::empty());
    lemma_u16_bytes_spell(p.b, Seq::empty());
    lemma_u16_bytes_spell(p.a, Seq::empty());
    assert(s.subrange(8 * i, 8 * i + 2) =~= spec_u16_bytes(p.r) + Seq::empty());
    assert(s.subrange(8 * i + 2, 8 * i + 4) =~= spec_u16_bytes(p.g) + Seq::empty());
    assert(s.subrange(8 * i + 4, 8 * i + 6) =~= spec_u16_bytes(p.b) + Seq::empty());
    assert(s.subrange(8 * i + 6, 8 * i + 8) =~= spec_u16_bytes(p.a) + Seq::empty());
}

/// Decoding the bytes that spell an image gives that image back, its width,
/// its height and every pixel, and reads exactly those bytes, whatever
/// follows them. The image must be one whose pixel data can be addressed.
pub proof fn lemma_decode_encode(image: ImageView, rest: Seq<u8>)
    requires
        image.wf(),
        image.width * image.height * 8 <= usize::MAX,
    ensures
        spec_encode(image).len() == 16 + image.width * image.height * 8,
        spec_decode(spec_encode(image) + rest) == Ok::<ImageView, DecodeError>(image),
        spec_consumed(spec_encode(image) + rest) == spec_encode(image).len(),
{
    let head = magic() + spec_u32_bytes(image.width as u32) + spec_u32_bytes(image.height as u32);
    let data = spec_pixels_bytes(image.pixels);
    let s = spec_encode(image) + rest;
    let count = image.width * image.height;
    assert(head.len() == 16);
    assert(data.len() == 8 * count);
    assert(s.len() == 16 + 8 * count + rest.len());
    assert(s.subrange(0, 8) =~= magic());
    lemma_u32_bytes_spell(image.width as u32, Seq::empty());
    lemma_u32_bytes_spell(image.height as u32, Seq::empty());
    assert(s.subrange(8, 12) =~= spec_u32_bytes(image.width as u32) + Seq::empty());
    assert(s.subrange(12, 16) =~= spec_u32_bytes(image.height as u32) + Seq::empty());
    assert(spec_width(s) == image.width);
    assert(spec_height(s) == image.height);
    let body = s.subrange(16, s.len() as int);
    assert(body =~= data + rest);
    assert forall|i: int| 0 <= i < count implies spec_pixel_at(body, 8 * i) == image.pixels[i] by {
        lemma_pixel_bytes_spell(image.pixels, rest, i);
    }
    assert(spec_pixels(body, count) =~= image.pixels);
}

/// Bytes after the last pixel do not count: a stream that decodes to an
/// image decodes to the same image, and is read as far, whatever is put
/// behind it.
pub proof fn lemma_trailing_bytes_ignored(s: Seq<u8>, rest: Seq<u8>)
    requires
        spec_decode(s) is Ok,
    ensures
        spec_decode(s + rest) == spec_decode(s),
        spec_consumed(s + rest) == spec_consumed(s),
{
    let t = s + rest;
    let count = spec_width(s) * spec_height(s);
    assert(t.subrange(0, 8) =~= s.subrange(0, 8));
    assert(t.subrange(8, 12) =~= s.subrange(8, 12));
    assert(t.subrange(12, 16) =~= s.subrange(12, 16));
    let body_s = s.subrange(16, s.len() as int);
    let body_t = t.subrange(16, t.len() as int);
    assert forall|i: int| 0 <= i < count implies #[trigger] spec_pixels(body_t, count)[i]
        == spec_pixels(body_s, count)[i] by {
        assert(body_t.subrange(8 * i, 8 * i + 2) =~= body_s.subrange(8 * i, 8 * i + 2));
        assert(body_t.subrange(8 * i + 2, 8 * i + 4) =~= body_s.subrange(8 * i + 2, 8 * i + 4));
        assert(body_t.subrange(8 * i + 4, 8 * i + 6) =~= body_s.subrange(8 * i + 4, 8 * i + 6));
        assert(body_t.subrange(8 * i + 6, 8 * i + 8) =~= body_s.subrange(8 * i + 6, 8 * i + 8));
    }
    assert(spec_pixels(body_t, count) =~= spec_pixels(body_s, count));
}

} // verus!
