use std::io::{Cursor, Write};

use bevy_typst_textures::asset_loading::TypstZipLoader;
use zip::write::SimpleFileOptions;
use zip::ZipWriter;

#[test]
fn font_that_decodes_is_kept_and_one_that_does_not_is_left_out() {
    let font: &[u8] = typst_assets::fonts().next().unwrap();
    let mut writer = ZipWriter::new(Cursor::new(Vec::new()));
    writer.add_directory("p/", SimpleFileOptions::default()).unwrap();
    for (name, content) in [
        ("p/main.typ", "hello".as_bytes()),
        ("p/fonts/good.otf", font),
        ("p/fonts/bad.otf", &font[..font.len() / 2][..64]),
        ("p/fonts/again.otf", font),
    ] {
        writer.start_file(name, SimpleFileOptions::default()).unwrap();
        writer.write_all(content).unwrap();
    }
    let bytes = writer.finish().unwrap().into_inner();
    let template = TypstZipLoader.load("bundle.zip", bytes).unwrap().0;
    assert_eq!(template.loaded_fonts.len(), 2);
    assert_eq!(template.loaded_fonts[0], font);
    assert_eq!(template.loaded_fonts[1], font);
    assert!(template.file_resolver.is_empty());
}
