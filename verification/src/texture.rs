//! Texture description.
//!
//! A [`Texture`] here is what the engine's logic reads of a decoded
//! image: its size and its pixel layout. Decoding image files and
//! uploading pixels to the graphics driver is the graphics layer's work.

use vstd::prelude::*;

verus! {

/// Pixel layout of a decoded image. Only the two byte-per-channel RGB
/// layouts are supported; anything else is rejected by the graphics
/// layer before it reaches the engine.
#[derive(Clone, Copy, PartialEq, Eq, Structural, Debug)]
pub enum PixelLayout {
    Rgb8,
    Rgba8,
}

/// Bytes each pixel of the layout occupies.
pub open spec fn spec_bytes_per_pixel(layout: PixelLayout) -> u32 {
    match layout {
        PixelLayout::Rgb8 => 3,
        PixelLayout::Rgba8 => 4,
    }
}

impl PixelLayout {
    /// Bytes each pixel of this layout occupies.
    pub fn bytes_per_pixel(&self) -> (r: u32)
        ensures
            r == spec_bytes_per_pixel(*self),
    {
        match self {
            PixelLayout::Rgb8 => 3,
            PixelLayout::Rgba8 => 4,
        }
    }
}

/// A texture that gets wrapped onto a mesh: the decoded image's size and
/// layout.
#[derive(Clone, Copy, PartialEq, Eq, Structural, Debug)]
pub struct Texture {
    /// Width of the texture.
    pub width: u32,
    /// Height of the texture.
    pub height: u32,
    /// Pixel layout of the texture.
    pub layout: PixelLayout,
}

impl Texture {
    /// Describe a decoded image of the given size and layout.
    pub fn new(width: u32, height: u32, layout: PixelLayout) -> (t: Texture)
        ensures
            t.width == width,
            t.height == height,
            t.layout == layout,
    {
        Texture { width, height, layout }
    }

    /// Get the width of the texture.
    pub fn width(&self) -> (r: u32)
        ensures
            r == self.width,
    {
        self.width
    }

    /// Get the height of the texture.
    pub fn height(&self) -> (r: u32)
        ensures
            r == self.height,
    {
        self.height
    }
}

} // verus!
