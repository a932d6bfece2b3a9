//! The interface to the `toml` crate: parsing a configuration file and
//! looking up entries of its tables.

use vstd::prelude::*;
use toml::de::Error as TomlDeError;

verus! {

#[verifier::external_type_specification]
#[verifier::external_body]
#[verifier::reject_recursive_types(K)]
#[verifier::reject_recursive_types(V)]
pub struct ExTomlMap<K, V>(toml::map::Map<K, V>);

#[verifier::external_type_specification]
#[verifier::external_body]
pub struct ExTomlValue(toml::Value);

#[verifier::external_type_specification]
#[verifier::external_body]
pub struct ExTomlDeError(TomlDeError);

/// What a TOML value is, as far as configuration lookup cares: a string,
/// a table (with what it holds), or any other kind of value.
pub enum TomlItem {
    Text(Seq<char>),
    Table(Map<Seq<char>, TomlItem>),
    Other,
}

/// The entries of a parsed TOML table, keyed by their names.
pub uninterp spec fn table_contents(table: toml::Table) -> Map<Seq<char>, TomlItem>;

/// The top-level table of a TOML document, or `None` when the text is not
/// valid TOML.
pub uninterp spec fn toml_document(text: Seq<char>) -> Option<Map<Seq<char>, TomlItem>>;

/// An entry of a table, as found by [`table_entry`].
pub enum Entry<'a> {
    Missing,
    Text(&'a String),
    Table(&'a toml::Table),
    Other,
}

/// Parses `text` as a TOML document with `str::parse::<toml::Table>`
/// (`toml::from_str`). The contract claims that parsing is a function of
/// the text: the parse succeeds exactly when `toml_document` gives a table,
/// and the parsed table holds what that table holds.
#[verifier::external_body]
pub fn parse_document(text: &str) -> (r: Option<toml::Table>)
    ensures
        r is Some <==> toml_document(text@) is Some,
        r matches Some(t) ==> table_contents(t) == toml_document(text@)->0,
{
    text.parse::<toml::Table>().ok()
}

/// Looks `key` up with `toml::map::Map::get` and tells the kind of the value
/// found apart. The contract claims that `get` finds exactly the entries that
/// `table_contents` holds, and that a sub-table found holds what the
/// enclosing table records for it.
#[verifier::external_body]
pub fn table_entry<'a>(table: &'a toml::Table, key: &str) -> (r: Entry<'a>)
    ensures
        match r {
            Entry::Missing => !table_contents(*table).contains_key(key@),
            Entry::Text(s) => table_contents(*table).contains_key(key@)
                && table_contents(*table)[key@] == TomlItem::Text(s@),
            Entry::Table(t) => table_contents(*table).contains_key(key@)
                && table_contents(*table)[key@] == TomlItem::Table(table_contents(*t)),
            Entry::Other => table_contents(*table).contains_key(key@)
                && table_contents(*table)[key@] is Other,
        },
{
    match table.get(key) {
        None => Entry::Missing,
        Some(toml::Value::String(s)) => Entry::Text(s),
        Some(toml::Value::Table(t)) => Entry::Table(t),
        Some(toml::Value::Integer(_)) => Entry::Other,
        Some(toml::Value::Float(_)) => Entry::Other,
        Some(toml::Value::Boolean(_)) => Entry::Other,
        Some(toml::Value::Datetime(_)) => Entry::Other,
        Some(toml::Value::Array(_)) => Entry::Other,
    }
}

} // verus!
