//! TOML documents: what a value of the `toml` crate holds, and the calls
//! into that crate that read, build, parse and print one.
//!
//! Nothing in this file is proved. Each item states what the `toml` crate
//! does; the schema of a project file is built on top of these statements
//! in verified code.

use vstd::prelude::*;

verus! {

/// `toml::Value`, carried as an opaque value: its content is `content_of`.
#[verifier::external_type_specification]
#[verifier::external_body]
pub struct ExValue(toml::Value);

/// `toml::map::Map`, the table type of the crate, carried as an opaque
/// value: its entries are `entries_of`.
#[verifier::external_type_specification]
#[verifier::external_body]
#[verifier::reject_recursive_types(K)]
#[verifier::reject_recursive_types(V)]
pub struct ExTable<K, V>(toml::map::Map<K, V>);

/// `toml::de::Error`, the error of a text that is not TOML.
#[verifier::external_type_specification]
#[verifier::external_body]
pub struct ExParseError(toml::de::Error);

/// `toml::ser::Error`, the error of a document that cannot be printed.
#[verifier::external_type_specification]
#[verifier::external_body]
pub struct ExPrintError(toml::ser::Error);

/// The entries of a TOML table, by key.
pub type Entries = Map<Seq<char>, Content>;

/// What a TOML value holds.
pub enum Content {
    String(Seq<char>),
    Integer(i64),
    Boolean(bool),
    Array(Seq<Content>),
    Table(Entries),
    /// A float or a date: values that the library never looks into.
    Other,
}

/// The content of a value of the `toml` crate.
pub uninterp spec fn content_of(value: toml::Value) -> Content;

/// The entries of a table of the `toml` crate, by key.
pub uninterp spec fn entries_of(table: toml::value::Table) -> Entries;

/// The document that `toml::from_str` reads from a text, if it is TOML.
pub uninterp spec fn parsed(text: Seq<char>) -> Option<Content>;

/// The text that `toml::to_string_pretty` prints for a document, if it prints one.
pub uninterp spec fn rendered(document: Content) -> Option<Seq<char>>;

/// The contents of a list of values, in the same order.
pub open spec fn contents_of(values: Seq<toml::Value>) -> Seq<Content> {
    Seq::new(values.len(), |i: int| content_of(values[i]))
}

/// The content is made of strings, integers, booleans, arrays and tables alone.
pub open spec fn plain(content: Content) -> bool
    decreases content,
{
    match content {
        Content::String(_) | Content::Integer(_) | Content::Boolean(_) => true,
        Content::Array(items) => forall|i: int| 0 <= i < items.len() ==> plain(#[trigger] items[i]),
        Content::Table(entries) => forall|key: Seq<char>| #[trigger]
            entries.contains_key(key) ==> plain(entries[key]),
        Content::Other => false,
    }
}

/// `toml::from_str`, read as a `toml::Value`: the parsed document where the
/// text is TOML, the crate's error where it is not.
#[verifier::external_body]
pub(crate) fn parse(text: &str) -> (document: Result<toml::Value, toml::de::Error>)
    ensures
        match document {
            Ok(value) => parsed(text@) == Some(content_of(value)),
            Err(_) => parsed(text@) is None,
        },
{
    toml::from_str::<toml::Value>(text)
}

/// `toml::to_string_pretty` on a `toml::Value` without floats and dates: the
/// printed text, which depends on the content alone, or the crate's error.
#[verifier::external_body]
pub(crate) fn render(document: &toml::Value) -> (text: Result<String, toml::ser::Error>)
    requires
        plain(content_of(*document)),
    ensures
        match text {
            Ok(text) => rendered(content_of(*document)) == Some(text@),
            Err(_) => rendered(content_of(*document)) is None,
        },
{
    toml::to_string_pretty(document)
}

/// `toml::Value::get` with a string key: the entry under that key where the
/// value is a table that has one, nothing otherwise.
#[verifier::external_body]
pub(crate) fn get<'a>(value: &'a toml::Value, key: &str) -> (entry: Option<&'a toml::Value>)
    ensures
        match content_of(*value) {
            Content::Table(entries) if entries.contains_key(key@) => entry matches Some(found)
                && content_of(*found) == entries[key@],
            _ => entry is None,
        },
{
    value.get(key)
}

/// `toml::Value::as_str`: the text of a string, nothing for any other value.
pub assume_specification<'a>[ toml::Value::as_str ](value: &'a toml::Value) -> (text: Option<
    &'a str,
>)
    ensures
        match content_of(*value) {
            Content::String(held) => text matches Some(found) && found@ == held,
            _ => text is None,
        },
;

/// `toml::Value::as_integer`: the number of an integer, nothing for any
/// other value.
pub assume_specification[ toml::Value::as_integer ](value: &toml::Value) -> (number: Option<i64>)
    ensures
        match content_of(*value) {
            Content::Integer(held) => number == Some(held),
            _ => number is None,
        },
;

/// `toml::Value::as_bool`: the flag of a boolean, nothing for any other value.
pub assume_specification[ toml::Value::as_bool ](value: &toml::Value) -> (flag: Option<bool>)
    ensures
        match content_of(*value) {
            Content::Boolean(held) => flag == Some(held),
            _ => flag is None,
        },
;

/// `toml::Value::as_array`: the items of an array, in their order, nothing
/// for any other value.
pub assume_specification<'a>[ toml::Value::as_array ](value: &'a toml::Value) -> (items: Option<
    &'a Vec<toml::Value>,
>)
    ensures
        match content_of(*value) {
            Content::Array(held) => items matches Some(found) && contents_of(found@) == held,
            _ => items is None,
        },
;

/// `toml::map::Map::new`: a table without entries.
#[verifier::external_body]
pub(crate) fn empty_table() -> (table: toml::value::Table)
    ensures
        entries_of(table) == Entries::empty(),
{
    toml::value::Table::new()
}

/// `toml::map::Map::insert`: afterwards the table holds the value under the
/// key, in place of what it held there, and its other entries as before.
pub assume_specification[ toml::value::Table::insert ](
    table: &mut toml::value::Table,
    k: String,
    v: toml::Value,
) -> (replaced: Option<toml::Value>)
    ensures
        entries_of(*final(table)) == entries_of(*old(table)).insert(k@, content_of(v)),
;

/// The variant `toml::Value::String`: a string with the given text.
#[verifier::external_body]
pub(crate) fn string_value(text: String) -> (value: toml::Value)
    ensures
        content_of(value) == Content::String(text@),
{
    toml::Value::String(text)
}

/// The variant `toml::Value::Integer`: an integer with the given number.
#[verifier::external_body]
pub(crate) fn integer_value(number: i64) -> (value: toml::Value)
    ensures
        content_of(value) == Content::Integer(number),
{
    toml::Value::Integer(number)
}

/// The variant `toml::Value::Boolean`: a boolean with the given flag.
#[verifier::external_body]
pub(crate) fn boolean_value(flag: bool) -> (value: toml::Value)
    ensures
        content_of(value) == Content::Boolean(flag),
{
    toml::Value::Boolean(flag)
}

/// The variant `toml::Value::Array`: an array of the given items, in their order.
#[verifier::external_body]
pub(crate) fn array_value(items: Vec<toml::Value>) -> (value: toml::Value)
    ensures
        content_of(value) == Content::Array(contents_of(items@)),
{
    toml::Value::Array(items)
}

/// The variant `toml::Value::Table`: a table with the entries of the given one.
#[verifier::external_body]
pub(crate) fn table_value(table: toml::value::Table) -> (value: toml::Value)
    ensures
        content_of(value) == Content::Table(entries_of(table)),
{
    toml::Value::Table(table)
}

} // verus!
