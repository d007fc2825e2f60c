//! The rendered output: rows of 8-bit RGB pixels.

use vstd::prelude::*;

verus! {

/// One 8-bit RGB pixel.
#[derive(Clone, Copy, Debug, PartialEq, Eq, Structural)]
pub struct Pixel {
    pub red: u8,
    pub green: u8,
    pub blue: u8,
}

/// A raster image: `height` rows of `width` pixels, row 0 the bottom
/// scanline; consumers writing top-down formats reverse the rows.
#[derive(Clone)]
pub struct Image {
    pub width: u32,
    pub height: u32,
    pub pixels: Vec<Vec<Pixel>>,
}

impl Image {
    /// The stored rows agree with the stated dimensions.
    pub open spec fn wf(self) -> bool {
        &&& self.pixels@.len() == self.height
        &&& forall|y: int|
            0 <= y < self.pixels@.len() ==> (#[trigger] self.pixels@[y])@.len() == self.width
    }
}

} // verus!
