//! Bits per pixel

use vstd::prelude::*;

verus! {

/// Bits per pixel
#[derive(PartialEq, Eq, Clone, Copy, Debug, Structural)]
pub enum BitsPerPixel {
    /// 4-bit indexed
    Index4Bit,
    /// 8-bit indexed
    Index8Bit,
    /// 16-bit color
    Color16Bit,
    /// 24-bit color
    Color24Bit,
}

impl BitsPerPixel {
    /// Whether `self` is one of the indexed formats.
    pub open spec fn spec_is_indexed(self) -> bool {
        self is Index4Bit || self is Index8Bit
    }

    /// How many pixels one 16-bit unit of the image's width holds.
    pub open spec fn width_scale(self) -> int {
        match self {
            BitsPerPixel::Index4Bit => 4,
            BitsPerPixel::Index8Bit => 2,
            _ => 1,
        }
    }

    /// Returns if this bpp is indexed
    pub fn is_indexed(self) -> (res: bool)
        ensures
            res == self.spec_is_indexed(),
    {
        match self {
            BitsPerPixel::Index4Bit | BitsPerPixel::Index8Bit => true,
            _ => false,
        }
    }

    /// Scales the image size as per the bpp
    pub fn scale_size(self, size: [u16; 2]) -> (res: [u16; 2])
        requires
            !(self is Color24Bit),
            size[0] * self.width_scale() <= u16::MAX,
        ensures
            res[0] == size[0] * self.width_scale(),
            res[1] == size[1],
    {
        let width = size[0];
        let height = size[1];
        let width = match self {
            BitsPerPixel::Index4Bit => width * 4,
            BitsPerPixel::Index8Bit => width * 2,
            BitsPerPixel::Color16Bit => width,
            BitsPerPixel::Color24Bit => width,
        };
        [width, height]
    }
}

} // verus!
