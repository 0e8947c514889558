//! TOML documents, as the `toml` crate parses them.
//!
//! Nothing here is proved: each function states what the `toml` crate does,
//! in terms of the tree of values that a document holds.

use vstd::prelude::*;

verus! {

#[verifier::external_type_specification]
#[verifier::external_body]
#[verifier::reject_recursive_types(K)]
#[verifier::reject_recursive_types(V)]
pub struct ExTomlMap<K, V>(toml::map::Map<K, V>);

#[verifier::external_type_specification]
#[verifier::external_body]
pub struct ExTomlValue(toml::Value);

#[verifier::external_type_specification]
#[verifier::external_body]
pub struct ExTomlError(toml::de::Error);

/// A TOML value, as far as a manifest looks into it.
pub enum TomlItem {
    /// A string.
    Text(Seq<char>),
    /// An array.
    List(Seq<TomlItem>),
    /// A table: its keys with their values, in the order in which the table
    /// hands them out.
    Table(Seq<(Seq<char>, TomlItem)>),
    /// An integer, float, boolean or date.
    Scalar,
}

/// The value under `key` in a table's entries.
pub open spec fn lookup(entries: Seq<(Seq<char>, TomlItem)>, key: Seq<char>) -> Option<TomlItem>
    decreases entries.len(),
{
    if entries.len() == 0 {
        None
    } else if entries[0].0 == key {
        Some(entries[0].1)
    } else {
        lookup(entries.drop_first(), key)
    }
}

/// The entries of the table that a TOML document is; `None` where the text
/// is no TOML document.
pub uninterp spec fn toml_document(text: Seq<char>) -> Option<Seq<(Seq<char>, TomlItem)>>;

/// The entries of a parsed table.
pub uninterp spec fn table_items(table: toml::Table) -> Seq<(Seq<char>, TomlItem)>;

/// What a parsed value is.
pub uninterp spec fn value_item(value: toml::Value) -> TomlItem;

/// The items of a parsed array.
pub open spec fn array_items(values: Seq<toml::Value>) -> Seq<TomlItem> {
    values.map_values(|v: toml::Value| value_item(v))
}

/// Parses a TOML document into its table.
///
/// Wraps `toml::from_str` at the type `toml::Table`. The table that comes
/// back holds the document's entries; an error comes back exactly where the
/// text is no document.
#[verifier::external_body]
pub(crate) fn parse_document(text: &str) -> (parsed: Result<toml::Table, toml::de::Error>)
    ensures
        match parsed {
            Ok(table) => toml_document(text@) == Some(table_items(table)),
            Err(_) => toml_document(text@) is None,
        },
{
    toml::from_str::<toml::Table>(text)
}

/// The value under `key`.
///
/// Wraps `toml::map::Map::get`.
#[verifier::external_body]
pub(crate) fn table_get<'a>(table: &'a toml::Table, key: &str) -> (found: Option<&'a toml::Value>)
    ensures
        match found {
            Some(value) => lookup(table_items(*table), key@) == Some(value_item(*value)),
            None => lookup(table_items(*table), key@) is None,
        },
{
    table.get(key)
}

/// The keys and values of a table, in the table's order.
///
/// Wraps `toml::map::Map::iter`, collected into a vector.
#[verifier::external_body]
pub(crate) fn table_entries<'a>(table: &'a toml::Table) -> (entries: Vec<
    (&'a String, &'a toml::Value),
>)
    ensures
        entries@.len() == table_items(*table).len(),
        forall|i: int|
            0 <= i < entries@.len() ==> (#[trigger] entries@[i]).0@ == table_items(*table)[i].0
                && value_item(*entries@[i].1) == table_items(*table)[i].1,
{
    table.iter().collect()
}

/// The text of a value that is a string.
///
/// Wraps `toml::Value::as_str`.
#[verifier::external_body]
pub(crate) fn value_as_str<'a>(value: &'a toml::Value) -> (text: Option<&'a str>)
    ensures
        match text {
            Some(s) => value_item(*value) == TomlItem::Text(s@),
            None => !(value_item(*value) is Text),
        },
{
    value.as_str()
}

/// The elements of a value that is an array.
///
/// Wraps `toml::Value::as_array`.
#[verifier::external_body]
pub(crate) fn value_as_array<'a>(value: &'a toml::Value) -> (items: Option<&'a Vec<toml::Value>>)
    ensures
        match items {
            Some(values) => value_item(*value) == TomlItem::List(array_items(values@)),
            None => !(value_item(*value) is List),
        },
{
    value.as_array()
}

/// The table of a value that is a table.
///
/// Wraps `toml::Value::as_table`.
#[verifier::external_body]
pub(crate) fn value_as_table<'a>(value: &'a toml::Value) -> (inner: Option<&'a toml::Table>)
    ensures
        match inner {
            Some(table) => value_item(*value) == TomlItem::Table(table_items(*table)),
            None => !(value_item(*value) is Table),
        },
{
    value.as_table()
}

} // verus!
