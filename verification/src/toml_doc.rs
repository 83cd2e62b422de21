//! The format-preserving TOML documents of `toml_edit`, as far as the
//! library reads and edits them: top-level keys whose values are strings,
//! arrays (of which the string items are read), or anything else.

use vstd::prelude::*;
use toml_edit::{DocumentMut, TomlError};

verus! {

/// `toml_edit::DocumentMut`, a parsed TOML document that keeps its
/// formatting. Opaque: its contents are reached through [`document_entries`].
#[verifier::external_type_specification]
#[verifier::external_body]
pub struct ExDocumentMut(DocumentMut);

/// `toml_edit::TomlError`, the error of parsing a document.
#[verifier::external_type_specification]
#[verifier::external_body]
pub struct ExTomlError(TomlError);

/// What the library reads of a top-level value.
pub enum DocItem {
    /// A string value.
    Str(Seq<char>),
    /// An inline array; each item is `Some` text when it is a string.
    Array(Seq<Option<Seq<char>>>),
    /// Anything else: a table, a number, an array of tables, ...
    Other,
}

/// The top-level entries of a document: keys that hold an item (an
/// `Item::None` placeholder counts as absent, as `Table::get` treats it).
pub uninterp spec fn document_entries(doc: DocumentMut) -> Map<Seq<char>, DocItem>;

/// The top-level entries of the document that `text` parses to, or `None`
/// when it is not valid TOML.
pub uninterp spec fn parsed_document(text: Seq<char>) -> Option<Map<Seq<char>, DocItem>>;

/// The entries of an empty document.
pub open spec fn no_entries() -> Map<Seq<char>, DocItem> {
    Map::empty()
}

/// The items of the array at `key`, when there is one.
pub open spec fn array_at(entries: Map<Seq<char>, DocItem>, key: Seq<char>) -> Option<Seq<Option<Seq<char>>>> {
    if entries.contains_key(key) {
        match entries[key] {
            DocItem::Array(items) => Some(items),
            _ => None,
        }
    } else {
        None
    }
}

/// The string at `key`, when there is one.
pub open spec fn str_at(entries: Map<Seq<char>, DocItem>, key: Seq<char>) -> Option<Seq<char>> {
    if entries.contains_key(key) {
        match entries[key] {
            DocItem::Str(s) => Some(s),
            _ => None,
        }
    } else {
        None
    }
}

/// Parses `text` with `DocumentMut::from_str` (`str::parse`).
///
/// Claims: parsing succeeds exactly when the text is valid TOML, and the
/// document's entries are those of the text (both named, not stated).
#[verifier::external_body]
pub fn parse_document(text: &str) -> (r: Result<DocumentMut, TomlError>)
    ensures
        r is Ok <==> parsed_document(text@) is Some,
        r is Ok ==> Some(document_entries(r->Ok_0)) == parsed_document(text@),
{
    text.parse::<DocumentMut>()
}

/// The text of a parse error, from its `Display` impl. Nothing is claimed
/// of the text.
#[verifier::external_body]
pub fn toml_error_text(e: &TomlError) -> String {
    format!("{e}")
}

/// An empty document (`DocumentMut::new`): no entries.
#[verifier::external_body]
pub fn new_document() -> (r: DocumentMut)
    ensures
        document_entries(r) == no_entries(),
{
    DocumentMut::new()
}

/// The text that a document displays as (its `Display` impl): a function of
/// the document alone, keeping the formatting it was parsed with.
pub uninterp spec fn document_text(doc: DocumentMut) -> Seq<char>;

/// The document's text (its `Display` impl). The contract names the text
/// ([`document_text`]) and states the round trip that `toml_edit` is built
/// for and tests: parsing the text gives back a document with the same
/// entries. How the text is laid out is not claimed.
#[verifier::external_body]
pub fn render_document(doc: &DocumentMut) -> (r: String)
    ensures
        r@ == document_text(*doc),
        parsed_document(r@) == Some(document_entries(*doc)),
{
    format!("{doc}")
}

/// The string at `key` (`Table::get` then `Item::as_str`).
#[verifier::external_body]
pub fn document_get_str(doc: &DocumentMut, key: &str) -> (r: Option<String>)
    ensures
        match r {
            Some(s) => str_at(document_entries(*doc), key@) == Some(s@),
            None => str_at(document_entries(*doc), key@) is None,
        },
{
    match doc.get(key) {
        Some(item) => item.as_str().map(String::from),
        None => None,
    }
}

/// Whether `key` holds an item (`Table::contains_key`).
#[verifier::external_body]
pub fn document_contains_key(doc: &DocumentMut, key: &str) -> (r: bool)
    ensures
        r == document_entries(*doc).contains_key(key@),
{
    doc.contains_key(key)
}

/// Sets `key` to the string `value` (`doc[key] = value(value)`).
#[verifier::external_body]
pub fn document_set_str(doc: &mut DocumentMut, key: &str, value: &str)
    ensures
        document_entries(*final(doc)) == document_entries(*old(doc)).insert(key@, DocItem::Str(value@)),
{
    doc[key] = toml_edit::value(value);
}

/// Sets `key` to an empty inline array
/// (`doc[key] = Item::Value(Value::Array(Array::new()))`).
#[verifier::external_body]
pub fn document_set_empty_array(doc: &mut DocumentMut, key: &str)
    ensures
        document_entries(*final(doc)) == document_entries(*old(doc)).insert(
            key@,
            DocItem::Array(Seq::empty()),
        ),
{
    doc[key] = toml_edit::Item::Value(toml_edit::Value::Array(toml_edit::Array::new()));
}

/// The number of items of the array at `key` (`Item::as_array`, then
/// `Array::len`), when `key` holds an array.
#[verifier::external_body]
pub fn document_array_len(doc: &DocumentMut, key: &str) -> (r: Option<usize>)
    ensures
        match r {
            Some(n) => array_at(document_entries(*doc), key@) is Some && n == array_at(
                document_entries(*doc),
                key@,
            )->0.len(),
            None => array_at(document_entries(*doc), key@) is None,
        },
{
    match doc.get(key) {
        Some(item) => item.as_array().map(toml_edit::Array::len),
        None => None,
    }
}

/// The item at `index` of the array at `key` when it is a string
/// (`Array::get`, then `Value::as_str`).
#[verifier::external_body]
pub fn document_array_get_str(doc: &DocumentMut, key: &str, index: usize) -> (r: Option<String>)
    requires
        array_at(document_entries(*doc), key@) is Some,
        index < array_at(document_entries(*doc), key@)->0.len(),
    ensures
        match r {
            Some(s) => array_at(document_entries(*doc), key@)->0[index as int] == Some(s@),
            None => array_at(document_entries(*doc), key@)->0[index as int] is None,
        },
{
    match doc[key].as_array().unwrap().get(index) {
        Some(v) => v.as_str().map(String::from),
        None => None,
    }
}

/// Appends the string `value` to the array at `key` (`Array::push`).
#[verifier::external_body]
pub fn document_array_push_str(doc: &mut DocumentMut, key: &str, value: &str)
    requires
        array_at(document_entries(*old(doc)), key@) is Some,
    ensures
        document_entries(*final(doc)) == document_entries(*old(doc)).insert(
            key@,
            DocItem::Array(array_at(document_entries(*old(doc)), key@)->0.push(Some(value@))),
        ),
{
    doc[key].as_array_mut().unwrap().push(value);
}

/// Removes the item at `index` of the array at `key` (`Array::remove`).
#[verifier::external_body]
pub fn document_array_remove(doc: &mut DocumentMut, key: &str, index: usize)
    requires
        array_at(document_entries(*old(doc)), key@) is Some,
        index < array_at(document_entries(*old(doc)), key@)->0.len(),
    ensures
        document_entries(*final(doc)) == document_entries(*old(doc)).insert(
            key@,
            DocItem::Array(array_at(document_entries(*old(doc)), key@)->0.remove(index as int)),
        ),
{
    doc[key].as_array_mut().unwrap().remove(index);
}

/// Removes every item of the array at `key` (`Array::clear`), keeping the
/// array's own formatting.
#[verifier::external_body]
pub fn document_array_clear(doc: &mut DocumentMut, key: &str)
    requires
        array_at(document_entries(*old(doc)), key@) is Some,
    ensures
        document_entries(*final(doc)) == document_entries(*old(doc)).insert(
            key@,
            DocItem::Array(Seq::empty()),
        ),
{
    doc[key].as_array_mut().unwrap().clear();
}

} // verus!
