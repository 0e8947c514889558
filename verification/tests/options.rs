use bevy_typst_textures::image::PixelBuffer;
use bevy_typst_textures::options::{
    AssetUsage, InputUnifyMode, PixelDensity, TypstJobOptions, ONE_PIXEL_PER_PT,
};
use bevy_typst_textures::page::select_page;

#[test]
fn default_options_render_the_first_page_at_one_pixel_per_point() {
    let options = TypstJobOptions::default();
    assert_eq!(options.pixels_per_pt.bits, 1.0f32.to_bits());
    assert_eq!(f32::from_bits(ONE_PIXEL_PER_PT), 1.0);
    assert_eq!(PixelDensity::default().bits, 0x3F80_0000);
    assert_eq!(options.specific_page, None);
    assert_eq!(
        options.asset_usage,
        AssetUsage { main_world: true, render_world: true }
    );
    assert!(matches!(options.input_unify_mode, InputUnifyMode::SerdeOverridesDict));
    assert!(matches!(InputUnifyMode::default(), InputUnifyMode::SerdeOverridesDict));
    assert_eq!(
        AssetUsage::main_world_only(),
        AssetUsage { main_world: true, render_world: false }
    );
}

#[test]
fn requested_page_is_held_back_to_the_last_page() {
    assert_eq!(select_page(Some(0), 4), 0);
    assert_eq!(select_page(Some(3), 4), 3);
    assert_eq!(select_page(Some(4), 4), 3);
    assert_eq!(select_page(Some(usize::MAX), 1), 0);
    assert_eq!(select_page(None, 1), 0);
    assert_eq!(select_page(None, 0), 0);
    assert_eq!(select_page(Some(7), 0), 0);
}

#[test]
fn pixel_buffer_needs_four_bytes_for_each_pixel() {
    let usage = AssetUsage::default();
    let image = PixelBuffer::new(2, 3, vec![7; 24], usage).unwrap();
    assert_eq!((image.width, image.height), (2, 3));
    assert_eq!(image.data, vec![7; 24]);
    assert_eq!(image.asset_usage, usage);
    assert!(PixelBuffer::new(2, 3, vec![7; 23], usage).is_none());
    assert!(PixelBuffer::new(2, 3, vec![7; 25], usage).is_none());
    assert!(PixelBuffer::new(0, 9, Vec::new(), usage).is_some());
    assert!(PixelBuffer::new(u32::MAX, u32::MAX, Vec::new(), usage).is_none());
}

#[test]
fn fallback_image_is_one_magenta_pixel() {
    let image = PixelBuffer::fallback();
    assert_eq!((image.width, image.height), (1, 1));
    assert_eq!(image.data, [255, 0, 255, 255]);
    assert_eq!(
        image.asset_usage,
        AssetUsage { main_world: true, render_world: false }
    );
}
