//! Rasterised pages as raw pixels.

use crate::options::AssetUsage;
use vstd::prelude::*;

verus! {

/// A rasterised image: four bytes (red, green, blue, alpha) for each pixel,
/// row by row.
#[derive(Debug, Clone)]
pub struct PixelBuffer {
    pub width: u32,
    pub height: u32,
    pub data: Vec<u8>,
    pub asset_usage: AssetUsage,
}

impl PixelBuffer {
    /// Whether the buffer holds exactly the bytes of its pixels.
    pub open spec fn well_formed(&self) -> bool {
        self.data@.len() == 4 * (self.width * self.height)
    }

    /// Makes an image of the given size out of its bytes; `None` where the
    /// number of bytes is not that of `width` by `height` pixels.
    pub fn new(width: u32, height: u32, data: Vec<u8>, asset_usage: AssetUsage) -> (image: Option<
        PixelBuffer,
    >)
        ensures
            image is Some <==> data@.len() == 4 * (width * height),
            image matches Some(buffer) ==> buffer.well_formed() && buffer.width == width
                && buffer.height == height && buffer.data@ == data@ && buffer.asset_usage
                == asset_usage,
    {
        assert(width * height <= 0xFFFF_FFFF * 0xFFFF_FFFF) by (nonlinear_arith)
            requires
                0 <= width <= 0xFFFF_FFFF,
                0 <= height <= 0xFFFF_FFFF,
        ;
        let pixels: u64 = (width as u64) * (height as u64);
        let wanted: u128 = 4 * (pixels as u128);
        if data.len() as u128 == wanted {
            Some(PixelBuffer { width, height, data, asset_usage })
        } else {
            None
        }
    }

    /// Whether the image is a single magenta pixel, kept in main memory.
    pub open spec fn is_magenta_pixel(&self) -> bool {
        &&& self.width == 1
        &&& self.height == 1
        &&& self.data@ == seq![255u8, 0u8, 255u8, 255u8]
        &&& self.asset_usage == (AssetUsage { main_world: true, render_world: false })
    }

    /// The image that stands in for one that is not there: a single magenta
    /// pixel, kept in main memory.
    pub fn fallback() -> (image: PixelBuffer)
        ensures
            image.well_formed(),
            image.is_magenta_pixel(),
    {
        let mut data: Vec<u8> = Vec::new();
        data.push(255);
        data.push(0);
        data.push(255);
        data.push(255);
        assert(data@ =~= seq![255u8, 0u8, 255u8, 255u8]);
        assert(4 * (1u32 * 1u32) == 4) by (nonlinear_arith);
        PixelBuffer { width: 1, height: 1, data, asset_usage: AssetUsage::main_world_only() }
    }
}

} // verus!
