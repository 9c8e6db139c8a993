//! The decoded image and the ways decoding can fail.

use vstd::prelude::*;

verus! {

/// Why a byte stream is not an image.
#[derive(Clone, Copy, Debug, PartialEq, Eq, Structural)]
pub enum DecodeError {
    /// The first eight bytes are not the format's signature.
    BadMagic,
    /// The stream ended inside a field.
    TruncatedInput,
    /// The pixel data that the header announces cannot be addressed.
    MalformedDimensions,
}

/// One pixel: four channels of sixteen bits.
#[derive(Clone, Copy, Debug, PartialEq, Eq, Structural)]
pub struct Pixel {
    pub r: u16,
    pub g: u16,
    pub b: u16,
    pub a: u16,
}

/// What an image is: its size and its pixels, row by row.
pub struct ImageView {
    pub width: nat,
    pub height: nat,
    pub pixels: Seq<Pixel>,
}

impl ImageView {
    /// There is one pixel for each place in the grid, and both sizes fit
    /// their header fields.
    pub open spec fn wf(self) -> bool {
        &&& self.pixels.len() == self.width * self.height
        &&& self.width <= u32::MAX
        &&& self.height <= u32::MAX
    }
}

/// A decoded image. It holds exactly `width * height` pixels.
#[derive(Clone, Debug, PartialEq, Eq)]
pub struct Image {
    pub(crate) width: u32,
    pub(crate) height: u32,
    pub(crate) pixels: Vec<Pixel>,
}

impl View for Image {
    type V = ImageView;

    open(crate) spec fn view(&self) -> ImageView {
        ImageView {
            width: self.width as nat,
            height: self.height as nat,
            pixels: self.pixels@,
        }
    }
}

impl Image {
    /// There is one pixel for each place in the grid.
    pub open spec fn wf(&self) -> bool {
        self@.wf()
    }

    /// The number of pixels in a row.
    pub fn width(&self) -> (w: u32)
        ensures
            w == self@.width,
    {
        self.width
    }

    /// The number of rows.
    pub fn height(&self) -> (h: u32)
        ensures
            h == self@.height,
    {
        self.height
    }

    /// The pixels, row by row.
    pub fn pixels(&self) -> (pixels: &[Pixel])
        ensures
            pixels@ == self@.pixels,
    {
        self.pixels.as_slice()
    }
}

} // verus!
