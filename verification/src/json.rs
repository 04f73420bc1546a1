//! JSON, as `serde_json` reads and writes it.

use vstd::prelude::*;

use crate::text;

verus! {

/// `serde_json::Value`: a JSON value.
#[verifier::external_type_specification]
#[verifier::external_body]
pub struct ExValue(serde_json::Value);

/// `serde_json::Error`: why a text is not JSON.
#[verifier::external_type_specification]
#[verifier::external_body]
pub struct ExError(serde_json::Error);

/// The text of a value that is a string.
pub uninterp spec fn json_text(value: serde_json::Value) -> Option<Seq<char>>;

/// The items of a value that is an array.
pub uninterp spec fn json_items(value: serde_json::Value) -> Option<Seq<serde_json::Value>>;

/// The keys and values of a value that is an object, in the order in which they are kept.
pub uninterp spec fn json_fields(value: serde_json::Value) -> Option<
    Seq<(Seq<char>, serde_json::Value)>,
>;

/// The value that a text spells, or why it spells none.
pub uninterp spec fn json_parse(document: Seq<char>) -> Result<serde_json::Value, serde_json::Error>;

/// What an error reads as.
pub uninterp spec fn error_chars(error: serde_json::Error) -> Seq<char>;

/// A text as a JSON string, or why it cannot be written.
pub uninterp spec fn json_string(content: Seq<char>) -> Result<Seq<char>, serde_json::Error>;

/// `serde_json::from_str` into a `Value`: the value that the text spells, or the error. The
/// answer depends on the text alone.
#[verifier::external_body]
pub(crate) fn parse(document: &str) -> (r: Result<serde_json::Value, serde_json::Error>)
    ensures
        r == json_parse(document@),
{
    serde_json::from_str(document)
}

/// `to_string` on a `serde_json::Error`: what the error reads as.
#[verifier::external_body]
pub(crate) fn error_text(error: &serde_json::Error) -> (r: String)
    ensures
        r@ == error_chars(*error),
{
    error.to_string()
}

/// `serde_json::to_string` on a text: the text as a JSON string. The answer depends on the
/// text alone.
#[verifier::external_body]
pub(crate) fn quote(content: &str) -> (r: Result<String, serde_json::Error>)
    ensures
        match r {
            Ok(quoted) => json_string(content@) == Ok::<Seq<char>, serde_json::Error>(quoted@),
            Err(error) => json_string(content@) == Err::<Seq<char>, serde_json::Error>(error),
        },
{
    serde_json::to_string(content)
}

/// `Value::as_str`: the text of a string, and nothing of any other value.
#[verifier::external_body]
pub(crate) fn as_text(value: &serde_json::Value) -> (r: Option<String>)
    ensures
        text::optional(r) == json_text(*value),
{
    value.as_str().map(|content| content.to_string())
}

/// `Value::as_array`: the items of an array, and nothing of any other value.
#[verifier::external_body]
pub(crate) fn as_items(value: &serde_json::Value) -> (r: Option<&Vec<serde_json::Value>>)
    ensures
        match r {
            Some(items) => json_items(*value) == Some(items@),
            None => json_items(*value) is None,
        },
{
    value.as_array()
}

/// A key with its value.
pub open spec fn field_of(field: (String, &serde_json::Value)) -> (Seq<char>, serde_json::Value) {
    (field.0@, *field.1)
}

/// `Value::as_object`: the keys and values of an object, and nothing of any other value. No
/// key occurs twice.
#[verifier::external_body]
pub(crate) fn as_fields(value: &serde_json::Value) -> (r: Option<Vec<(String, &serde_json::Value)>>)
    ensures
        match r {
            Some(fields) => json_fields(*value) == Some(fields@.map_values(|field| field_of(field)))
                && forall|i: int, j: int|
                0 <= i < j < fields@.len() ==> fields@[i].0@ != fields@[j].0@,
            None => json_fields(*value) is None,
        },
{
    value.as_object().map(|fields| fields.iter().map(|(key, item)| (key.clone(), item)).collect())
}

/// The value of a key.
pub open spec fn field(
    fields: Option<Seq<(Seq<char>, serde_json::Value)>>,
    key: Seq<char>,
) -> Option<serde_json::Value> {
    match fields {
        Some(all) => if exists|i: int| 0 <= i < all.len() && (#[trigger] all[i]).0 == key {
            Some(all[choose|i: int| 0 <= i < all.len() && (#[trigger] all[i]).0 == key].1)
        } else {
            None
        },
        None => None,
    }
}

/// `Value::get` with a key: the value of the key in an object, and nothing where the key is
/// missing or the value is no object.
#[verifier::external_body]
pub(crate) fn get<'a>(value: &'a serde_json::Value, key: &str) -> (r: Option<&'a serde_json::Value>)
    ensures
        match r {
            Some(item) => field(json_fields(*value), key@) == Some(*item),
            None => field(json_fields(*value), key@) is None,
        },
{
    value.get(key)
}

/// The text of a key: nothing where the key is missing or its value is no string.
pub open spec fn text_field(value: serde_json::Value, key: Seq<char>) -> Option<Seq<char>> {
    match field(json_fields(value), key) {
        Some(item) => json_text(item),
        None => None,
    }
}

/// Reads the text of a key.
pub fn text_at(value: &serde_json::Value, key: &str) -> (r: Option<String>)
    ensures
        text::optional(r) == text_field(*value, key@),
{
    match get(value, key) {
        Some(item) => as_text(item),
        None => None,
    }
}

/// A key of an object is found, and a key that is missing is not. The keys of an object differ.
pub proof fn law_a_key_is_found(fields: Seq<(Seq<char>, serde_json::Value)>, at: int, key: Seq<char>)
    requires
        forall|i: int, j: int|
            0 <= i < j < fields.len() ==> #[trigger] fields[i].0 != #[trigger] fields[j].0,
    ensures
        0 <= at < fields.len() ==> field(Some(fields), fields[at].0) == Some(fields[at].1),
        (forall|i: int| 0 <= i < fields.len() ==> #[trigger] fields[i].0 != key) ==> field(
            Some(fields),
            key,
        ) is None,
        field(None, key) is None,
{
    if 0 <= at < fields.len() {
        let wanted = fields[at].0;
        let found = choose|i: int| 0 <= i < fields.len() && (#[trigger] fields[i]).0 == wanted;
        assert(fields[at].0 == wanted);
        assert(found == at);
    }
}

/// The text of a key is the text of its value, and there is none where the value is no text or
/// the key is missing.
pub proof fn law_the_text_of_a_key_is_read(
    value: serde_json::Value,
    fields: Seq<(Seq<char>, serde_json::Value)>,
    at: int,
    key: Seq<char>,
)
    requires
        forall|i: int, j: int|
            0 <= i < j < fields.len() ==> #[trigger] fields[i].0 != #[trigger] fields[j].0,
        json_fields(value) == Some(fields),
    ensures
        0 <= at < fields.len() ==> text_field(value, fields[at].0) == json_text(fields[at].1),
        (forall|i: int| 0 <= i < fields.len() ==> #[trigger] fields[i].0 != key) ==> text_field(
            value,
            key,
        ) is None,
{
    law_a_key_is_found(fields, at, key);
}

} // verus!
