use bevy_typst_textures::file_resolver::{classify, EntryKind};
use bevy_typst_textures::path::{ends_with_extension, same_chars, to_chars, EntryPath};

fn parts(path: &EntryPath) -> Vec<String> {
    path.parts.iter().map(|p| p.iter().collect()).collect()
}

fn kind_of(prefix: &str, name: &str, is_file: bool) -> EntryKind {
    let relative = EntryPath::parse(name).strip_prefix(&EntryPath::parse(prefix));
    classify(&relative, is_file)
}

#[test]
fn names_split_at_slashes() {
    assert_eq!(parts(&EntryPath::parse("a/bc/d.typ")), ["a", "bc", "d.typ"]);
    assert_eq!(parts(&EntryPath::parse("root/")), ["root"]);
    assert_eq!(parts(&EntryPath::parse("/x//y/")), ["x", "y"]);
    assert!(parts(&EntryPath::parse("")).is_empty());
    assert!(parts(&EntryPath::parse("///")).is_empty());
    assert_eq!(parts(&EntryPath::parse("é/ü.typ")), ["é", "ü.typ"]);
}

#[test]
fn dot_is_a_component_only_at_the_beginning() {
    assert_eq!(parts(&EntryPath::parse("a/./b")), ["a", "b"]);
    assert_eq!(parts(&EntryPath::parse("a/.")), ["a"]);
    assert_eq!(parts(&EntryPath::parse("./a")), [".", "a"]);
    assert_eq!(parts(&EntryPath::parse(".")), ["."]);
    assert_eq!(parts(&EntryPath::parse("././a/./")), [".", "a"]);
    assert_eq!(parts(&EntryPath::parse("a/../.b/c.")), ["a", "..", ".b", "c."]);
}

#[test]
fn relative_names_split_as_paths_do() {
    for name in [
        "",
        "a",
        "a/b",
        "a//b/",
        "a/./b",
        "./a/b",
        "a/b/.",
        "..",
        "a/../b",
        "p/main.typ",
        "__MACOSX/p/._x",
        "dir.with.dots/file.tar.gz",
        "ü/ñ.typ",
    ] {
        let expected: Vec<String> = std::path::Path::new(name)
            .components()
            .map(|c| c.as_os_str().to_str().unwrap().to_string())
            .collect();
        assert_eq!(parts(&EntryPath::parse(name)), expected, "{name}");
    }
}

#[test]
fn prefix_is_taken_off_component_by_component() {
    let root = EntryPath::parse("proj/");
    assert_eq!(parts(&EntryPath::parse("proj/a/b").strip_prefix(&root)), ["a", "b"]);
    assert!(parts(&EntryPath::parse("proj").strip_prefix(&root)).is_empty());
    assert_eq!(
        parts(&EntryPath::parse("project/a").strip_prefix(&root)),
        ["project", "a"]
    );
    assert_eq!(parts(&EntryPath::parse("other/a").strip_prefix(&root)), ["other", "a"]);
    let deep = EntryPath::parse("a/b");
    assert_eq!(parts(&EntryPath::parse("a").strip_prefix(&deep)), ["a"]);
    assert!(EntryPath::parse("a/b/c").starts_with(&deep));
    assert!(!EntryPath::parse("a/c/b").starts_with(&deep));
    assert!(EntryPath::parse("a").starts_with(&EntryPath::parse("")));
}

#[test]
fn paths_are_written_out_with_single_slashes() {
    assert_eq!(EntryPath::parse("a//b/c/").to_text(), "a/b/c");
    assert_eq!(EntryPath::parse("solo").to_text(), "solo");
    assert_eq!(EntryPath::parse("").to_text(), "");
}

#[test]
fn text_is_taken_apart_into_characters() {
    assert_eq!(to_chars("añ/b"), vec!['a', 'ñ', '/', 'b']);
    assert!(same_chars(&to_chars("abc"), &to_chars("abc")));
    assert!(!same_chars(&to_chars("abc"), &to_chars("abd")));
    assert!(!same_chars(&to_chars("abc"), &to_chars("ab")));
}

#[test]
fn extension_needs_something_before_the_dot() {
    let typ = to_chars("typ");
    assert!(ends_with_extension(&to_chars("main.typ"), &typ));
    assert!(ends_with_extension(&to_chars("a.b.typ"), &typ));
    assert!(!ends_with_extension(&to_chars(".typ"), &typ));
    assert!(!ends_with_extension(&to_chars("typ"), &typ));
    assert!(!ends_with_extension(&to_chars("maintyp"), &typ));
    assert!(!ends_with_extension(&to_chars("main.typ2"), &typ));
    assert!(!ends_with_extension(&to_chars("main.TYP"), &typ));
    assert!(!ends_with_extension(&to_chars(""), &typ));
    assert!(EntryPath::parse("dir/a.otf").has_extension("otf"));
    assert!(!EntryPath::parse("a.otf/dir").has_extension("otf"));
    assert!(!EntryPath::parse("").has_extension("otf"));
}

#[test]
fn extension_is_found_as_paths_find_it() {
    for name in [
        "main.typ",
        ".typ",
        "..typ",
        "a..typ",
        "typ",
        "a.typ.",
        "a.typ.bak",
        "dir/a.typ",
        "dir.typ/a",
        "a.b/c.d.typ",
        "a.typ/",
        "a.TYP",
        "é.typ",
    ] {
        let expected = std::path::Path::new(name)
            .extension()
            .is_some_and(|ext| ext == "typ");
        assert_eq!(EntryPath::parse(name).has_extension("typ"), expected, "{name}");
    }
}

#[test]
fn first_and_only_component_are_compared_exactly() {
    assert!(EntryPath::parse("__MACOSX/a").first_is("__MACOSX"));
    assert!(!EntryPath::parse("a/__MACOSX").first_is("__MACOSX"));
    assert!(!EntryPath::parse("").first_is("__MACOSX"));
    assert!(EntryPath::parse("main.typ").is_only("main.typ"));
    assert!(!EntryPath::parse("x/main.typ").is_only("main.typ"));
    assert!(!EntryPath::parse("main.typ/x").is_only("main.typ"));
}

#[test]
fn entries_are_told_apart_by_place_and_extension() {
    assert_eq!(kind_of("p/", "p/main.typ", true), EntryKind::MainDocument);
    assert_eq!(kind_of("p/", "p/sub/main.typ", true), EntryKind::AuxiliaryDocument);
    assert_eq!(kind_of("p/", "p/other.typ", true), EntryKind::AuxiliaryDocument);
    assert_eq!(kind_of("p/", "p/fonts/a.otf", true), EntryKind::Font);
    assert_eq!(kind_of("p/", "p/package.toml", true), EntryKind::Manifest);
    assert_eq!(kind_of("p/", "p/sub/package.toml", true), EntryKind::Asset);
    assert_eq!(kind_of("p/", "p/other.toml", true), EntryKind::Asset);
    assert_eq!(kind_of("p/", "p/img.png", true), EntryKind::Asset);
    assert_eq!(kind_of("p/", "p/a.ttf", true), EntryKind::Asset);
    assert_eq!(kind_of("p/", "p/", false), EntryKind::Skipped);
    assert_eq!(kind_of("p/", "p/main.typ", false), EntryKind::Skipped);
    assert_eq!(kind_of("p/", "__MACOSX/p/._main.typ", true), EntryKind::Skipped);
    assert_eq!(kind_of("p/", "p/__MACOSX/x.typ", true), EntryKind::Skipped);
    assert_eq!(kind_of("p/", "main.typ", true), EntryKind::MainDocument);
    assert_eq!(kind_of("main.typ", "main.typ", true), EntryKind::Asset);
}
