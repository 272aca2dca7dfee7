//! JSON documents.
//!
//! Documents are `serde_json` values. What one holds is named by
//! [`json_content`]; the functions here build documents field by field and say
//! what they then hold.
use serde_json::Value;
use vstd::prelude::*;
use vstd::string::*;

verus! {

/// The type of a JSON value.
#[verifier::external_type_specification]
#[verifier::external_body]
pub struct ExJsonValue(serde_json::Value);

/// What a JSON value holds.
pub enum JsonModel {
    Null,
    Bool(bool),
    /// A natural number.
    Number(nat),
    /// A number that is not natural, by its text.
    OtherNumber(Seq<char>),
    Text(Seq<char>),
    Array(Seq<JsonModel>),
    Object(Map<Seq<char>, JsonModel>),
}

/// What a JSON value holds.
pub uninterp spec fn json_content(value: serde_json::Value) -> JsonModel;

/// The compact encoding of a JSON value, by what it holds.
pub uninterp spec fn json_encoding(content: JsonModel) -> Seq<u8>;

/// The compact text of a JSON value, by what it holds.
pub uninterp spec fn json_display(content: JsonModel) -> Seq<char>;

/// What each value of a list holds.
pub open spec fn json_contents(values: Seq<serde_json::Value>) -> Seq<JsonModel> {
    Seq::new(values.len(), |i: int| json_content(values[i]))
}

/// The variant `serde_json::Value::Null`.
#[verifier::external_body]
pub(crate) fn json_null() -> (value: Value)
    ensures
        json_content(value) == JsonModel::Null,
{
    Value::Null
}

/// The variant `serde_json::Value::Bool`.
#[verifier::external_body]
pub(crate) fn json_bool(flag: bool) -> (value: Value)
    ensures
        json_content(value) == JsonModel::Bool(flag),
{
    Value::Bool(flag)
}

/// `serde_json`'s `From<u64>` for its value: a number.
#[verifier::external_body]
pub(crate) fn json_number(number: u64) -> (value: Value)
    ensures
        json_content(value) == JsonModel::Number(number as nat),
{
    Value::from(number)
}

/// `serde_json`'s `From<&str>` for its value: a text.
#[verifier::external_body]
pub(crate) fn json_text(text: &str) -> (value: Value)
    ensures
        json_content(value) == JsonModel::Text(text@),
{
    Value::from(text)
}

/// The variant `serde_json::Value::Array`.
#[verifier::external_body]
pub(crate) fn json_array(items: Vec<Value>) -> (value: Value)
    ensures
        json_content(value) == JsonModel::Array(json_contents(items@)),
{
    Value::Array(items)
}

/// The variant `serde_json::Value::Object` of `serde_json::Map::new`: an object
/// without fields.
#[verifier::external_body]
pub(crate) fn json_object() -> (value: Value)
    ensures
        json_content(value) == JsonModel::Object(Map::empty()),
{
    Value::Object(serde_json::Map::new())
}

/// Assignment through `serde_json`'s `IndexMut<&str>` for its value: on an object
/// it sets one field and keeps the others.
#[verifier::external_body]
pub(crate) fn json_set(object: &mut Value, key: &str, value: Value)
    requires
        json_content(*old(object)) is Object,
    ensures
        json_content(*final(object)) == JsonModel::Object(
            json_content(*old(object))->Object_0.insert(key@, json_content(value)),
        ),
{
    object[key] = value;
}

/// `serde_json::Value::clone`: a value that holds the same.
#[verifier::external_body]
pub(crate) fn json_copy(value: &Value) -> (copy: Value)
    ensures
        json_content(copy) == json_content(*value),
{
    value.clone()
}

/// `serde_json::to_vec` of a value, which has no serializer that can fail: the
/// compact encoding, in UTF-8. It is fixed by what the value holds: an object
/// lists its fields in the order of their names.
#[verifier::external_body]
pub(crate) fn json_bytes(value: &Value) -> (bytes: Vec<u8>)
    ensures
        bytes@ == json_encoding(json_content(*value)),
        vstd::utf8::valid_utf8(bytes@),
{
    serde_json::to_vec(value).expect("a JSON value has no serializer that can fail")
}

/// `serde_json`'s `Display` of a value: the compact text, fixed by what the value
/// holds.
#[verifier::external_body]
pub(crate) fn json_rendering(value: &Value) -> (text: String)
    ensures
        text@ == json_display(json_content(*value)),
{
    value.to_string()
}

/// Sets a text field.
pub(crate) fn set_text(object: &mut Value, key: &str, text: &str)
    requires
        json_content(*old(object)) is Object,
    ensures
        json_content(*final(object)) == JsonModel::Object(
            json_content(*old(object))->Object_0.insert(key@, JsonModel::Text(text@)),
        ),
{
    json_set(object, key, json_text(text));
}

/// Sets a number field.
pub(crate) fn set_number(object: &mut Value, key: &str, number: u64)
    requires
        json_content(*old(object)) is Object,
    ensures
        json_content(*final(object)) == JsonModel::Object(
            json_content(*old(object))->Object_0.insert(key@, JsonModel::Number(number as nat)),
        ),
{
    json_set(object, key, json_number(number));
}

/// Sets a flag.
pub(crate) fn set_bool(object: &mut Value, key: &str, flag: bool)
    requires
        json_content(*old(object)) is Object,
    ensures
        json_content(*final(object)) == JsonModel::Object(
            json_content(*old(object))->Object_0.insert(key@, JsonModel::Bool(flag)),
        ),
{
    json_set(object, key, json_bool(flag));
}

/// An array of texts.
pub open spec fn text_array(texts: Seq<Seq<char>>) -> JsonModel {
    JsonModel::Array(Seq::new(texts.len(), |i: int| JsonModel::Text(texts[i])))
}

/// Whether two contents have different encodings, unless they are the same.
pub open spec fn encoded_apart(left: JsonModel, right: JsonModel) -> bool {
    json_encoding(left) == json_encoding(right) ==> left == right
}

/// An array of texts.
pub(crate) fn json_texts(texts: &Vec<String>) -> (value: Value)
    ensures
        json_content(value) == text_array(crate::text::owned_texts(texts@)),
{
    let mut items: Vec<Value> = Vec::new();
    for i in 0..texts.len()
        invariant
            items@.len() == i,
            forall|j: int|
                0 <= j < i ==> json_content(#[trigger] items@[j]) == JsonModel::Text(texts@[j]@),
    {
        items.push(json_text(texts[i].as_str()));
    }
    assert(json_contents(items@) =~= Seq::new(
        texts@.len(),
        |i: int| JsonModel::Text(crate::text::owned_texts(texts@)[i]),
    ));
    json_array(items)
}

/// An array of numbers.
pub open spec fn number_array(numbers: Seq<u32>) -> JsonModel {
    JsonModel::Array(Seq::new(numbers.len(), |i: int| JsonModel::Number(numbers[i] as nat)))
}

/// An array of numbers.
pub(crate) fn json_numbers(numbers: &Vec<u32>) -> (value: Value)
    ensures
        json_content(value) == number_array(numbers@),
{
    let mut items: Vec<Value> = Vec::new();
    for i in 0..numbers.len()
        invariant
            items@.len() == i,
            forall|j: int|
                0 <= j < i ==> json_content(#[trigger] items@[j]) == JsonModel::Number(
                    numbers@[j] as nat,
                ),
    {
        items.push(json_number(numbers[i] as u64));
    }
    assert(json_contents(items@) =~= Seq::new(
        numbers@.len(),
        |i: int| JsonModel::Number(numbers@[i] as nat),
    ));
    json_array(items)
}

} // verus!
