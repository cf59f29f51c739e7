//! JSON values, as `serde_json` holds them.
//!
//! A [`Value`] is opaque to the proofs. What it holds is spoken of as a [`Json`] tree, through
//! the name [`json`]; the functions below build values and write them out.
use serde_json::Value;
use vstd::prelude::*;

verus! {

/// What a JSON value holds.
pub enum Json {
    Null,
    Bool(bool),
    /// A floating-point number whose value is this whole number (negative zero excepted).
    Float(int),
    /// Any other number, by the text it is written as.
    Number(Seq<char>),
    Text(Seq<char>),
    List(Seq<Json>),
    Object(Map<Seq<char>, Json>),
}

/// `serde_json::Value`, carried as it is.
#[verifier::external_type_specification]
#[verifier::external_body]
pub struct ExValue(serde_json::Value);

/// What `value` holds.
pub uninterp spec fn json(value: Value) -> Json;

/// What each of `values` holds.
pub open spec fn jsons(values: Seq<Value>) -> Seq<Json> {
    values.map_values(|value: Value| json(value))
}

/// The compact text that a value holding `tree` is written as.
pub uninterp spec fn json_text(tree: Json) -> Seq<char>;

/// The fields of an object that is filled entry by entry.
pub open spec fn fields(entries: Seq<(Seq<char>, Json)>) -> Map<Seq<char>, Json>
    decreases entries.len(),
{
    if entries.len() == 0 {
        Map::empty()
    } else {
        fields(entries.drop_last()).insert(entries.last().0, entries.last().1)
    }
}

/// No key occurs twice.
pub open spec fn distinct_keys(entries: Seq<(Seq<char>, Json)>) -> bool {
    forall|i: int, j: int|
        0 <= i < j < entries.len() ==> (#[trigger] entries[i]).0 != (#[trigger] entries[j]).0
}

/// The field `key` of an object.
pub open spec fn field(tree: Json, key: Seq<char>) -> Option<Json> {
    match tree {
        Json::Object(map) if map.dom().contains(key) => Some(map[key]),
        _ => None,
    }
}

/// The keys and what the values hold of a list of entries.
pub open spec fn entries_view(entries: Seq<(&'static str, Value)>) -> Seq<(Seq<char>, Json)> {
    entries.map_values(|entry: (&'static str, Value)| (entry.0@, json(entry.1)))
}

/// `Value::from` of a string slice: the value is that text.
#[verifier::external_body]
pub(crate) fn text_value(text: &str) -> (value: Value)
    ensures
        json(value) == Json::Text(text@),
{
    Value::from(text)
}

/// `Value::from` of a slice of values: an array of their copies, in order.
#[verifier::external_body]
pub(crate) fn list_value(items: &[Value]) -> (value: Value)
    ensures
        json(value) == Json::List(jsons(items@)),
{
    Value::from(items)
}

/// `Value::from_iter` of key-value pairs: the object that has their fields. Which of two entries
/// with one key stays is left open, so there are none.
#[verifier::external_body]
pub(crate) fn object_value(entries: Vec<(&'static str, Value)>) -> (value: Value)
    requires
        distinct_keys(entries_view(entries@)),
    ensures
        json(value) == Json::Object(fields(entries_view(entries@))),
{
    Value::from_iter(entries)
}

/// `Number::from_f64` of a whole number, as a value: the floating-point number equal to it.
/// Every `u32` is exact in double precision and finite, so a number always comes back.
#[verifier::external_body]
pub(crate) fn whole_float_value(whole: u32) -> (value: Value)
    ensures
        json(value) == Json::Float(whole as int),
{
    Value::from(serde_json::Number::from_f64(whole.into()))
}

/// `Value::clone`: the copy holds what the value holds.
#[verifier::external_body]
pub(crate) fn copy_value(value: &Value) -> (copy: Value)
    ensures
        json(copy) == json(*value),
{
    value.clone()
}

/// `Value::to_string`: the compact text of what the value holds. An object is written in the
/// order of its keys, which is how `serde_json` keeps its fields unless its `preserve_order`
/// feature is on; this crate leaves it off. The compact form puts nothing between its tokens and
/// escapes control characters in strings, so neither line feed nor carriage return occurs in it.
#[verifier::external_body]
pub(crate) fn write_json(value: &Value) -> (text: String)
    ensures
        text@ == json_text(json(*value)),
        !text@.contains('\n'),
        !text@.contains('\r'),
{
    value.to_string()
}

/// A list of values is read value by value, in order.
pub proof fn jsons_keeps_each_value(values: Seq<Value>)
    ensures
        jsons(values).len() == values.len(),
        forall|i: int| 0 <= i < values.len() ==> #[trigger] jsons(values)[i] == json(values[i]),
{
}

/// An object has the keys of its entries and no other, and under each key what its entry has.
pub proof fn fields_are_the_entries(entries: Seq<(Seq<char>, Json)>)
    requires
        forall|i: int, j: int|
            0 <= i < j < entries.len() ==> (#[trigger] entries[i]).0 != (#[trigger] entries[j]).0,
    ensures
        forall|i: int|
            0 <= i < entries.len() ==> fields(entries).dom().contains((#[trigger] entries[i]).0)
                && fields(entries)[entries[i].0] == entries[i].1,
        forall|key: Seq<char>| #[trigger]
            fields(entries).dom().contains(key) ==> exists|i: int|
                0 <= i < entries.len() && (#[trigger] entries[i]).0 == key,
    decreases entries.len(),
{
    if entries.len() > 0 {
        let before = entries.drop_last();
        fields_are_the_entries(before);
        let last = entries.len() - 1;
        assert forall|i: int| 0 <= i < entries.len() implies fields(entries).dom().contains(
            (#[trigger] entries[i]).0,
        ) && fields(entries)[entries[i].0] == entries[i].1 by {
            if i < last {
                assert(before[i] == entries[i]);
                assert(entries[i].0 != entries[last].0);
            }
        }
        assert forall|key: Seq<char>| #[trigger] fields(entries).dom().contains(key) implies exists|
            i: int,
        |
            0 <= i < entries.len() && (#[trigger] entries[i]).0 == key by {
            if key == entries[last].0 {
            } else {
                assert(fields(before).dom().contains(key));
                let i = choose|i: int| 0 <= i < before.len() && (#[trigger] before[i]).0 == key;
                assert(entries[i].0 == key);
            }
        }
    }
}

/// An entry is read as its key and what its value holds.
pub proof fn entries_view_keeps_each_entry(entries: Seq<(&'static str, Value)>)
    ensures
        entries_view(entries).len() == entries.len(),
        forall|i: int|
            0 <= i < entries.len() ==> #[trigger] entries_view(entries)[i] == (
                entries[i].0@,
                json(entries[i].1),
            ),
{
}

/// The field of an object is what it has under the key, if anything.
pub proof fn field_is_what_stands_under_the_key(map: Map<Seq<char>, Json>, key: Seq<char>)
    ensures
        map.dom().contains(key) ==> field(Json::Object(map), key) == Some(map[key]),
        !map.dom().contains(key) ==> field(Json::Object(map), key) is None,
{
}

} // verus!
