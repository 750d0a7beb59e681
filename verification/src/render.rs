//! Rasterised PDF pages.
use vstd::prelude::*;

verus! {

/// An owned RGBA8 page raster, shaped like `DecodedImage` so that both go
/// through the same painting path.
#[derive(Debug, Clone)]
pub struct RenderedPage {
    width: u32,
    height: u32,
    pixels: Vec<u8>,
}

impl RenderedPage {
    /// The raster's width in pixels.
    pub closed spec fn spec_width(&self) -> u32 {
        self.width
    }

    /// The raster's height in pixels.
    pub closed spec fn spec_height(&self) -> u32 {
        self.height
    }

    /// The raster's RGBA8 bytes.
    pub closed spec fn spec_pixels(&self) -> Seq<u8> {
        self.pixels@
    }

    /// A raster of the given size holding `pixels` (RGBA8, row-major).
    pub fn from_raw(width: u32, height: u32, pixels: Vec<u8>) -> (p: Self)
        ensures
            p.spec_width() == width,
            p.spec_height() == height,
            p.spec_pixels() == pixels@,
    {
        RenderedPage { width, height, pixels }
    }

    pub fn dimensions(&self) -> (d: (u32, u32))
        ensures
            d == (self.spec_width(), self.spec_height()),
    {
        (self.width, self.height)
    }

    pub fn width(&self) -> (w: u32)
        ensures
            w == self.spec_width(),
    {
        self.width
    }

    pub fn height(&self) -> (h: u32)
        ensures
            h == self.spec_height(),
    {
        self.height
    }

    pub fn pixels(&self) -> (p: &[u8])
        ensures
            p@ == self.spec_pixels(),
    {
        self.pixels.as_slice()
    }
}

} // verus!
