use bevy_typst_textures::page::select_page;

#[test]
fn no_request_renders_the_first_page() {
    assert_eq!(select_page(None, 5), 0);
}

#[test]
fn request_past_the_end_renders_the_last_page() {
    assert_eq!(select_page(Some(9), 3), 2);
    assert_eq!(select_page(Some(1), 3), 1);
}
