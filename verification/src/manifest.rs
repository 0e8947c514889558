//! The optional `package.toml` of a bundle.
//!
//! Every field may be left out. A field that is present with the wrong shape
//! makes the whole manifest malformed; keys that the manifest does not know
//! are passed over.

use crate::path::{same_chars, to_chars};
use crate::toml_tree::{
    array_items, lookup, parse_document, table_entries, table_get, table_items, toml_document,
    value_as_array, value_as_str, value_as_table, value_item, TomlItem,
};
use vstd::prelude::*;

verus! {

/// What kind of file an asset request asks for.
#[derive(Debug, Clone, Copy, PartialEq, Eq, Structural)]
pub enum FileTypeHint {
    Image,
    Font,
    Typst,
}

/// Stands for a package of the Typst universe that a bundle would carry.
#[derive(Debug, Clone, Copy, PartialEq, Eq, Structural, Default)]
pub struct TypstFauxPackage {}

/// The content of a bundle's `package.toml`. It describes the bundle and is
/// not acted upon.
#[derive(Debug, Clone)]
pub struct BevyTypstDotToml {
    pub name: Option<String>,
    pub authors: Vec<String>,
    /// Requested assets by path, in the order of the manifest's table.
    pub asset_requests: Vec<(String, Option<FileTypeHint>)>,
    pub package_requests: Vec<String>,
}

/// A manifest as plain values.
pub struct ManifestView {
    pub name: Option<Seq<char>>,
    pub authors: Seq<Seq<char>>,
    pub asset_requests: Seq<(Seq<char>, Option<FileTypeHint>)>,
    pub package_requests: Seq<Seq<char>>,
}

/// The views of a list of strings.
pub open spec fn text_views(texts: Seq<String>) -> Seq<Seq<char>> {
    texts.map_values(|t: String| t@)
}

/// The views of a list of asset requests.
pub open spec fn request_views(requests: Seq<(String, Option<FileTypeHint>)>) -> Seq<
    (Seq<char>, Option<FileTypeHint>),
> {
    requests.map_values(|r: (String, Option<FileTypeHint>)| (r.0@, r.1))
}

impl View for BevyTypstDotToml {
    type V = ManifestView;

    open spec fn view(&self) -> ManifestView {
        ManifestView {
            name: match self.name {
                Some(n) => Some(n@),
                None => None,
            },
            authors: text_views(self.authors@),
            asset_requests: request_views(self.asset_requests@),
            package_requests: text_views(self.package_requests@),
        }
    }
}

/// The manifest of a bundle that has none: nothing named, nothing requested.
pub open spec fn empty_manifest() -> ManifestView {
    ManifestView {
        name: None,
        authors: Seq::empty(),
        asset_requests: Seq::empty(),
        package_requests: Seq::empty(),
    }
}

impl Default for BevyTypstDotToml {
    fn default() -> (manifest: Self)
        ensures
            manifest@ == empty_manifest(),
    {
        let manifest = BevyTypstDotToml {
            name: None,
            authors: Vec::new(),
            asset_requests: Vec::new(),
            package_requests: Vec::new(),
        };
        assert(manifest@.authors =~= Seq::empty());
        assert(manifest@.asset_requests =~= Seq::empty());
        assert(manifest@.package_requests =~= Seq::empty());
        manifest
    }
}

/// The hint that a variant name stands for.
pub open spec fn hint_named(name: Seq<char>) -> Option<FileTypeHint> {
    if name == "Image"@ {
        Some(FileTypeHint::Image)
    } else if name == "Font"@ {
        Some(FileTypeHint::Font)
    } else if name == "Typst"@ {
        Some(FileTypeHint::Typst)
    } else {
        None
    }
}

/// Whether a value is a table or an array with nothing in it.
pub open spec fn is_empty_container(item: TomlItem) -> bool {
    match item {
        TomlItem::Table(entries) => entries.len() == 0,
        TomlItem::List(items) => items.len() == 0,
        _ => false,
    }
}

/// The hint that a value stands for: a variant's name as a string, or a
/// table whose single key is a variant's name over an empty table or array.
pub open spec fn hint_of(item: TomlItem) -> Option<FileTypeHint> {
    match item {
        TomlItem::Text(name) => hint_named(name),
        TomlItem::Table(entries) => if entries.len() == 1 && is_empty_container(entries[0].1) {
            hint_named(entries[0].0)
        } else {
            None
        },
        _ => None,
    }
}

/// Whether every item is a string.
pub open spec fn all_text(items: Seq<TomlItem>) -> bool {
    forall|i: int| 0 <= i < items.len() ==> #[trigger] items[i] is Text
}

/// The strings of an array of strings; `None` for anything else.
pub open spec fn text_list(item: TomlItem) -> Option<Seq<Seq<char>>> {
    match item {
        TomlItem::List(items) => if all_text(items) {
            Some(items.map_values(|t: TomlItem| t->Text_0))
        } else {
            None
        },
        _ => None,
    }
}

/// Whether every value of a table stands for a hint.
pub open spec fn all_hints(entries: Seq<(Seq<char>, TomlItem)>) -> bool {
    forall|i: int| 0 <= i < entries.len() ==> hint_of((#[trigger] entries[i]).1) is Some
}

/// The requests of a table from paths to hints; `None` for anything else.
pub open spec fn request_table(item: TomlItem) -> Option<Seq<(Seq<char>, Option<FileTypeHint>)>> {
    match item {
        TomlItem::Table(entries) => if all_hints(entries) {
            Some(entries.map_values(|e: (Seq<char>, TomlItem)| (e.0, hint_of(e.1))))
        } else {
            None
        },
        _ => None,
    }
}

/// The `name` field: absent, a string, or malformed (`None`).
pub open spec fn name_field(doc: Seq<(Seq<char>, TomlItem)>) -> Option<Option<Seq<char>>> {
    match lookup(doc, "name"@) {
        None => Some(None),
        Some(TomlItem::Text(name)) => Some(Some(name)),
        Some(_) => None,
    }
}

/// A field that lists strings: empty where absent, `None` where malformed.
pub open spec fn list_field(doc: Seq<(Seq<char>, TomlItem)>, key: Seq<char>) -> Option<
    Seq<Seq<char>>,
> {
    match lookup(doc, key) {
        None => Some(Seq::empty()),
        Some(item) => text_list(item),
    }
}

/// The `asset_requests` field: empty where absent, `None` where malformed.
pub open spec fn requests_field(doc: Seq<(Seq<char>, TomlItem)>) -> Option<
    Seq<(Seq<char>, Option<FileTypeHint>)>,
> {
    match lookup(doc, "asset_requests"@) {
        None => Some(Seq::empty()),
        Some(item) => request_table(item),
    }
}

/// The manifest that a TOML table holds; `None` where a field is malformed.
pub open spec fn manifest_from(doc: Seq<(Seq<char>, TomlItem)>) -> Option<ManifestView> {
    if name_field(doc) is Some && list_field(doc, "authors"@) is Some && requests_field(doc) is Some
        && list_field(doc, "package_requests"@) is Some {
        Some(
            ManifestView {
                name: name_field(doc)->Some_0,
                authors: list_field(doc, "authors"@)->Some_0,
                asset_requests: requests_field(doc)->Some_0,
                package_requests: list_field(doc, "package_requests"@)->Some_0,
            },
        )
    } else {
        None
    }
}

/// The manifest that a text holds; `None` where the text is no TOML document
/// or a field is malformed.
pub open spec fn manifest_of(text: Seq<char>) -> Option<ManifestView> {
    match toml_document(text) {
        Some(doc) => manifest_from(doc),
        None => None,
    }
}

/// Whether `text` is exactly `literal`.
fn text_is(text: &str, literal: &str) -> (same: bool)
    ensures
        same == (text@ == literal@),
{
    let a = to_chars(text);
    let b = to_chars(literal);
    same_chars(&a, &b)
}

/// Reads a variant name.
fn read_hint_name(name: &str) -> (hint: Option<FileTypeHint>)
    ensures
        hint == hint_named(name@),
{
    if text_is(name, "Image") {
        Some(FileTypeHint::Image)
    } else if text_is(name, "Font") {
        Some(FileTypeHint::Font)
    } else if text_is(name, "Typst") {
        Some(FileTypeHint::Typst)
    } else {
        None
    }
}

/// Whether a value is an empty table or an empty array.
fn value_is_empty_container(value: &toml::Value) -> (empty: bool)
    ensures
        empty == is_empty_container(value_item(*value)),
{
    match value_as_table(value) {
        Some(table) => table_entries(table).len() == 0,
        None => match value_as_array(value) {
            Some(items) => {
                assert(array_items(items@).len() == items@.len());
                items.len() == 0
            },
            None => false,
        },
    }
}

/// Reads a hint.
fn read_hint(value: &toml::Value) -> (hint: Option<FileTypeHint>)
    ensures
        hint == hint_of(value_item(*value)),
{
    match value_as_str(value) {
        Some(name) => read_hint_name(name),
        None => match value_as_table(value) {
            Some(table) => {
                let entries = table_entries(table);
                if entries.len() != 1 {
                    return None;
                }
                let entry = &entries[0];
                if value_is_empty_container(entry.1) {
                    read_hint_name(entry.0.as_str())
                } else {
                    None
                }
            },
            None => None,
        },
    }
}

/// Reads an array of strings.
fn read_text_list(value: &toml::Value) -> (texts: Option<Vec<String>>)
    ensures
        match texts {
            Some(list) => text_list(value_item(*value)) == Some(text_views(list@)),
            None => text_list(value_item(*value)) is None,
        },
{
    let items = match value_as_array(value) {
        Some(items) => items,
        None => {
            return None;
        },
    };
    let ghost model = array_items(items@);
    let mut texts: Vec<String> = Vec::new();
    let mut i: usize = 0;
    while i < items.len()
        invariant
            i <= items.len(),
            model == array_items(items@),
            model.len() == items@.len(),
            value_item(*value) == TomlItem::List(model),
            texts@.len() == i,
            forall|j: int| 0 <= j < i ==> #[trigger] model[j] is Text,
            forall|j: int| 0 <= j < i ==> (#[trigger] texts@[j])@ == model[j]->Text_0,
        decreases items.len() - i,
    {
        match value_as_str(&items[i]) {
            Some(text) => {
                texts.push(text.to_owned());
            },
            None => {
                assert(!(model[i as int] is Text));
                return None;
            },
        }
        i += 1;
    }
    assert(all_text(model));
    assert(text_views(texts@) =~= model.map_values(|t: TomlItem| t->Text_0));
    Some(texts)
}

/// Reads a table from paths to hints.
fn read_request_table(value: &toml::Value) -> (requests: Option<
    Vec<(String, Option<FileTypeHint>)>,
>)
    ensures
        match requests {
            Some(list) => request_table(value_item(*value)) == Some(request_views(list@)),
            None => request_table(value_item(*value)) is None,
        },
{
    let table = match value_as_table(value) {
        Some(table) => table,
        None => {
            return None;
        },
    };
    let entries = table_entries(table);
    let ghost model = table_items(*table);
    let mut requests: Vec<(String, Option<FileTypeHint>)> = Vec::new();
    let mut i: usize = 0;
    while i < entries.len()
        invariant
            i <= entries.len(),
            entries@.len() == model.len(),
            value_item(*value) == TomlItem::Table(model),
            forall|j: int|
                0 <= j < entries@.len() ==> (#[trigger] entries@[j]).0@ == model[j].0 && value_item(
                    *entries@[j].1,
                ) == model[j].1,
            requests@.len() == i,
            forall|j: int| 0 <= j < i ==> hint_of((#[trigger] model[j]).1) is Some,
            forall|j: int|
                0 <= j < i ==> (#[trigger] requests@[j]).0@ == model[j].0 && requests@[j].1
                    == hint_of(model[j].1),
        decreases entries.len() - i,
    {
        let entry = &entries[i];
        match read_hint(entry.1) {
            Some(hint) => {
                requests.push((entry.0.clone(), Some(hint)));
            },
            None => {
                assert(hint_of(model[i as int].1) is None);
                return None;
            },
        }
        i += 1;
    }
    assert(all_hints(model));
    assert(request_views(requests@) =~= model.map_values(
        |e: (Seq<char>, TomlItem)| (e.0, hint_of(e.1)),
    ));
    Some(requests)
}

/// Reads one of the fields that list strings.
fn read_list_field(table: &toml::Table, key: &str) -> (texts: Option<Vec<String>>)
    ensures
        match texts {
            Some(list) => list_field(table_items(*table), key@) == Some(text_views(list@)),
            None => list_field(table_items(*table), key@) is None,
        },
{
    match table_get(table, key) {
        Some(value) => read_text_list(value),
        None => {
            let texts: Vec<String> = Vec::new();
            assert(text_views(texts@) =~= Seq::empty());
            Some(texts)
        },
    }
}

impl BevyTypstDotToml {
    /// Reads the manifest out of a parsed document.
    pub fn from_table(table: &toml::Table) -> (manifest: Option<BevyTypstDotToml>)
        ensures
            match manifest {
                Some(m) => manifest_from(table_items(*table)) == Some(m@),
                None => manifest_from(table_items(*table)) is None,
            },
    {
        let name = match table_get(table, "name") {
            Some(value) => match value_as_str(value) {
                Some(text) => Some(text.to_owned()),
                None => {
                    return None;
                },
            },
            None => None,
        };
        let authors = match read_list_field(table, "authors") {
            Some(list) => list,
            None => {
                return None;
            },
        };
        let asset_requests = match table_get(table, "asset_requests") {
            Some(value) => match read_request_table(value) {
                Some(list) => list,
                None => {
                    return None;
                },
            },
            None => {
                let list: Vec<(String, Option<FileTypeHint>)> = Vec::new();
                assert(request_views(list@) =~= Seq::empty());
                list
            },
        };
        let package_requests = match read_list_field(table, "package_requests") {
            Some(list) => list,
            None => {
                return None;
            },
        };
        Some(BevyTypstDotToml { name, authors, asset_requests, package_requests })
    }

    /// Reads a manifest from the text of a `package.toml`.
    pub fn parse(text: &str) -> (manifest: Option<BevyTypstDotToml>)
        ensures
            match manifest {
                Some(m) => manifest_of(text@) == Some(m@),
                None => manifest_of(text@) is None,
            },
    {
        match parse_document(text) {
            Ok(table) => BevyTypstDotToml::from_table(&table),
            Err(_) => None,
        }
    }
}

} // verus!
