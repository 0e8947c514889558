//! What a caller may ask of a job.

use vstd::prelude::*;

verus! {

/// How a job's two inputs are made one, where both are given.
#[derive(Debug, Clone)]
pub enum InputUnifyMode {
    /// Where both inputs have a key, the serialised input's value is kept.
    SerdeOverridesDict,
    /// Where both inputs have a key, the dictionary input's value is kept.
    DictOverridesSerde,
    /// Both inputs are placed whole, each as a dictionary under its own key.
    SeparateKeys { serde_key: String, dict_key: String },
}

impl Default for InputUnifyMode {
    fn default() -> (mode: Self)
        ensures
            mode is SerdeOverridesDict,
    {
        InputUnifyMode::SerdeOverridesDict
    }
}

/// Where a rasterised image is kept once it has been delivered.
#[derive(Debug, Clone, Copy, PartialEq, Eq, Structural)]
pub struct AssetUsage {
    /// Kept in main memory.
    pub main_world: bool,
    /// Handed to the renderer.
    pub render_world: bool,
}

impl AssetUsage {
    /// Kept in main memory only.
    pub fn main_world_only() -> (usage: Self)
        ensures
            usage == (AssetUsage { main_world: true, render_world: false }),
    {
        AssetUsage { main_world: true, render_world: false }
    }
}

impl Default for AssetUsage {
    fn default() -> (usage: Self)
        ensures
            usage == (AssetUsage { main_world: true, render_world: true }),
    {
        AssetUsage { main_world: true, render_world: true }
    }
}

/// How many pixels a Typst point takes, held as the bits of a
/// single-precision number.
#[derive(Debug, Clone, Copy, PartialEq, Eq, Structural)]
pub struct PixelDensity {
    pub bits: u32,
}

/// The bits of the single-precision number one.
pub const ONE_PIXEL_PER_PT: u32 = 0x3F80_0000;

impl Default for PixelDensity {
    fn default() -> (density: Self)
        ensures
            density.bits == ONE_PIXEL_PER_PT,
    {
        PixelDensity { bits: ONE_PIXEL_PER_PT }
    }
}

/// Options for a job.
#[derive(Debug, Clone)]
pub struct TypstJobOptions {
    /// How many pixels a Typst point takes; one by default.
    pub pixels_per_pt: PixelDensity,
    /// Which page to render: the first where nothing is given, and never
    /// past the document's last page.
    pub specific_page: Option<usize>,
    /// Where the image is kept; by default both in main memory and with the
    /// renderer.
    pub asset_usage: AssetUsage,
    /// How two inputs are made one.
    pub input_unify_mode: InputUnifyMode,
}

impl Default for TypstJobOptions {
    fn default() -> (options: Self)
        ensures
            options.pixels_per_pt.bits == ONE_PIXEL_PER_PT,
            options.specific_page is None,
            options.asset_usage == (AssetUsage { main_world: true, render_world: true }),
            options.input_unify_mode is SerdeOverridesDict,
    {
        TypstJobOptions {
            pixels_per_pt: PixelDensity::default(),
            specific_page: None,
            asset_usage: AssetUsage::default(),
            input_unify_mode: InputUnifyMode::default(),
        }
    }
}

} // verus!
