//! Frontmatter as a YAML mapping.
//!
//! The mapping is kept as the YAML library holds it, so that fields this
//! crate does not know survive a rewrite. Its contents are read here as a
//! map from field name to a plain value.

use vstd::prelude::*;
use crate::clock::text_view;
use crate::locks::views_of;

verus! {

/// A YAML mapping.
#[verifier::external_type_specification]
#[verifier::external_body]
pub struct ExMapping(serde_yaml::Mapping);

/// The value of a field, as far as this crate reads it.
pub enum Field {
    /// A string.
    Text(Seq<char>),
    /// A boolean.
    Flag(bool),
    /// A non-negative integer.
    Natural(u64),
    /// A sequence; each item is its text, or `None` where it is no string.
    List(Seq<Option<Seq<char>>>),
    /// Anything else.
    Other,
}

/// The fields of a mapping that have a string for a name.
pub uninterp spec fn fields_of(m: serde_yaml::Mapping) -> Map<Seq<char>, Field>;

/// The fields of the mapping that a YAML text denotes; none where the text
/// is no YAML or denotes no mapping.
pub uninterp spec fn yaml_fields(text: Seq<char>) -> Map<Seq<char>, Field>;

/// The YAML text of a mapping, or the reason why it has none.
pub uninterp spec fn yaml_text(m: serde_yaml::Mapping) -> Result<Seq<char>, Seq<char>>;

/// No field at all.
pub open spec fn no_fields() -> Map<Seq<char>, Field> {
    Map::empty()
}

/// The views of a rendering's text and of its failure.
pub open spec fn rendered_view(r: Result<String, String>) -> Result<Seq<char>, Seq<char>> {
    match r {
        Ok(text) => Ok(text@),
        Err(e) => Err(e@),
    }
}

/// The field `key` of `fields`, if it is there.
pub open spec fn field_at(fields: Map<Seq<char>, Field>, key: Seq<char>) -> Option<Field> {
    if fields.dom().contains(key) {
        Some(fields[key])
    } else {
        None
    }
}

/// The text of a field that is a string.
pub open spec fn text_at(fields: Map<Seq<char>, Field>, key: Seq<char>) -> Option<Seq<char>> {
    match field_at(fields, key) {
        Some(Field::Text(s)) => Some(s),
        _ => None,
    }
}

/// The value of a field that is a boolean.
pub open spec fn flag_at(fields: Map<Seq<char>, Field>, key: Seq<char>) -> Option<bool> {
    match field_at(fields, key) {
        Some(Field::Flag(b)) => Some(b),
        _ => None,
    }
}

/// The value of a field that is a non-negative integer.
pub open spec fn natural_at(fields: Map<Seq<char>, Field>, key: Seq<char>) -> Option<u64> {
    match field_at(fields, key) {
        Some(Field::Natural(n)) => Some(n),
        _ => None,
    }
}

/// The items of a field that is a sequence.
pub open spec fn list_at(fields: Map<Seq<char>, Field>, key: Seq<char>) -> Option<
    Seq<Option<Seq<char>>>,
> {
    match field_at(fields, key) {
        Some(Field::List(items)) => Some(items),
        _ => None,
    }
}

/// The view of each optional string.
pub open spec fn item_views(items: Seq<Option<String>>) -> Seq<Option<Seq<char>>> {
    Seq::new(items.len(), |i: int| text_view(items[i]))
}

/// A sequence of strings as the items of a field.
pub open spec fn as_items(texts: Seq<Seq<char>>) -> Seq<Option<Seq<char>>> {
    Seq::new(texts.len(), |i: int| Some(texts[i]))
}

/// An empty mapping.
///
/// Trusted: `serde_yaml::Mapping::new` makes a mapping without entries.
#[verifier::external_body]
pub(crate) fn new_mapping() -> (fresh: serde_yaml::Mapping)
    ensures
        fields_of(fresh) == no_fields(),
{
    serde_yaml::Mapping::new()
}

/// Tells whether the mapping has a field named `key`.
///
/// Trusted: `serde_yaml::Mapping::contains_key` with a string looks for the
/// entry whose key is that string.
#[verifier::external_body]
pub(crate) fn has_key(m: &serde_yaml::Mapping, key: &str) -> (r: bool)
    ensures
        r == fields_of(*m).dom().contains(key@),
{
    m.contains_key(key)
}

/// The text of the field `key`, if it is a string.
///
/// Trusted: `serde_yaml::Mapping::get` yields the value under the string
/// key and `serde_yaml::Value::as_str` its text if it is a string.
#[verifier::external_body]
pub(crate) fn get_text(m: &serde_yaml::Mapping, key: &str) -> (r: Option<String>)
    ensures
        text_view(r) == text_at(fields_of(*m), key@),
{
    m.get(key).and_then(|v| v.as_str()).map(String::from)
}

/// The value of the field `key`, if it is a boolean.
///
/// Trusted: `serde_yaml::Mapping::get` yields the value under the string
/// key and `serde_yaml::Value::as_bool` its value if it is a boolean.
#[verifier::external_body]
pub(crate) fn get_flag(m: &serde_yaml::Mapping, key: &str) -> (r: Option<bool>)
    ensures
        r == flag_at(fields_of(*m), key@),
{
    m.get(key).and_then(|v| v.as_bool())
}

/// The value of the field `key`, if it is a non-negative integer.
///
/// Trusted: `serde_yaml::Mapping::get` yields the value under the string
/// key and `serde_yaml::Value::as_u64` its value if it is an integer that
/// fits `u64`.
#[verifier::external_body]
pub(crate) fn get_natural(m: &serde_yaml::Mapping, key: &str) -> (r: Option<u64>)
    ensures
        r == natural_at(fields_of(*m), key@),
{
    m.get(key).and_then(|v| v.as_u64())
}

/// The items of the field `key`, if it is a sequence: each item's text, or
/// `None` for an item that is no string.
///
/// Trusted: `serde_yaml::Mapping::get` yields the value under the string
/// key, `serde_yaml::Value::as_sequence` its items if it is a sequence, and
/// `serde_yaml::Value::as_str` the text of each item that is a string.
#[verifier::external_body]
pub(crate) fn get_list(m: &serde_yaml::Mapping, key: &str) -> (r: Option<Vec<Option<String>>>)
    ensures
        match r {
            Some(items) => list_at(fields_of(*m), key@) == Some(item_views(items@)),
            None => list_at(fields_of(*m), key@) is None,
        },
{
    let items = m.get(key).and_then(|v| v.as_sequence())?;
    Some(items.iter().map(|v| v.as_str().map(String::from)).collect())
}

/// Sets the field `key` to a string.
///
/// Trusted: `serde_yaml::Mapping::insert` puts the value under the key,
/// replacing what was there and leaving every other entry as it was.
#[verifier::external_body]
pub(crate) fn set_text(m: &mut serde_yaml::Mapping, key: &str, value: &str)
    ensures
        fields_of(*final(m)) == fields_of(*old(m)).insert(key@, Field::Text(value@)),
{
    m.insert(serde_yaml::Value::from(key), serde_yaml::Value::from(value));
}

/// Sets the field `key` to a boolean.
///
/// Trusted: `serde_yaml::Mapping::insert`, as for [`set_text`].
#[verifier::external_body]
pub(crate) fn set_flag(m: &mut serde_yaml::Mapping, key: &str, value: bool)
    ensures
        fields_of(*final(m)) == fields_of(*old(m)).insert(key@, Field::Flag(value)),
{
    m.insert(serde_yaml::Value::from(key), serde_yaml::Value::from(value));
}

/// Sets the field `key` to a non-negative integer.
///
/// Trusted: `serde_yaml::Mapping::insert`, as for [`set_text`].
#[verifier::external_body]
pub(crate) fn set_natural(m: &mut serde_yaml::Mapping, key: &str, value: u64)
    ensures
        fields_of(*final(m)) == fields_of(*old(m)).insert(key@, Field::Natural(value)),
{
    m.insert(serde_yaml::Value::from(key), serde_yaml::Value::from(value));
}

/// Sets the field `key` to a sequence of strings.
///
/// Trusted: `serde_yaml::Mapping::insert`, as for [`set_text`], with a
/// sequence value that holds one string per item.
#[verifier::external_body]
pub(crate) fn set_list(m: &mut serde_yaml::Mapping, key: &str, items: &Vec<String>)
    ensures
        fields_of(*final(m)) == fields_of(*old(m)).insert(
            key@,
            Field::List(as_items(views_of(items@))),
        ),
{
    let values = items.iter().map(|t| serde_yaml::Value::from(t.as_str())).collect();
    m.insert(serde_yaml::Value::from(key), serde_yaml::Value::Sequence(values));
}

/// Removes the field `key`.
///
/// Trusted: `serde_yaml::Mapping::remove` with a string takes out the entry
/// whose key is that string, if there is one, and no other.
#[verifier::external_body]
pub(crate) fn remove_key(m: &mut serde_yaml::Mapping, key: &str)
    ensures
        fields_of(*final(m)) == fields_of(*old(m)).remove(key@),
{
    m.remove(key);
}

/// Reads a YAML text as a mapping; an empty mapping where the text is no
/// YAML or denotes no mapping.
///
/// Trusted: calls `serde_yaml::from_str` and keeps the mapping it yields,
/// found with `serde_yaml::Value::as_mapping`. The mapping's fields are a
/// function of the text alone.
#[verifier::external_body]
pub(crate) fn parse_yaml(text: &str) -> (parsed: serde_yaml::Mapping)
    ensures
        fields_of(parsed) == yaml_fields(text@),
{
    let value: serde_yaml::Value = serde_yaml::from_str(text).unwrap_or(serde_yaml::Value::Null);
    value.as_mapping().cloned().unwrap_or_default()
}

/// Writes a mapping as YAML text.
///
/// Trusted: calls `serde_yaml::to_string`; on failure the error's message
/// is kept. The outcome is a function of the mapping alone.
#[verifier::external_body]
pub(crate) fn render_yaml(m: &serde_yaml::Mapping) -> (r: Result<String, String>)
    ensures
        rendered_view(r) == yaml_text(*m),
{
    serde_yaml::to_string(m).map_err(|e| e.to_string())
}

} // verus!
