//! JSON text: reading JSON5 with `json5`, writing JSON with `serde_json`.

use vstd::prelude::*;
use vstd::utf8::encode_utf8;

use crate::json::{
    distinct_keys, entries_model, items_model, json_number, json_valid, lemma_array_model,
    lemma_object_model, Json, JsonModel, NumberModel,
};

verus! {

/// `serde_json`'s value, on its way to a [`Json`] or from one.
#[verifier::external_type_specification]
#[verifier::external_body]
pub struct ExJsonValue(serde_json::Value);

/// What a `serde_json` value holds.
pub uninterp spec fn json_contents(value: serde_json::Value) -> JsonModel;

/// What `json5` reads out of a text as a `serde_json` value, or the words of
/// its error.
pub uninterp spec fn json5_read(source: Seq<char>) -> Result<JsonModel, Seq<char>>;

/// The indented text that `serde_json` writes for a value.
pub uninterp spec fn json_pretty(value: JsonModel) -> Seq<char>;

/// One level of a `serde_json` value.
pub enum JsonNode {
    Null,
    Bool(bool),
    Number(serde_json::Number),
    String(String),
    Array(Vec<serde_json::Value>),
    Object(Vec<(String, serde_json::Value)>),
}

/// What the elements of an array hold.
pub open spec fn values_model(items: Seq<serde_json::Value>) -> Seq<JsonModel> {
    items.map_values(|item: serde_json::Value| json_contents(item))
}

/// What the entries of an object hold.
pub open spec fn members_model(entries: Seq<(String, serde_json::Value)>) -> Seq<
    (Seq<char>, JsonModel),
> {
    entries.map_values(|entry: (String, serde_json::Value)| (entry.0@, json_contents(entry.1)))
}

impl JsonNode {
    /// What the value holds of which this is one level.
    pub open spec fn model(self) -> JsonModel {
        match self {
            JsonNode::Null => JsonModel::Null,
            JsonNode::Bool(b) => JsonModel::Bool(b),
            JsonNode::Number(n) => JsonModel::Number(json_number(n)),
            JsonNode::String(s) => JsonModel::String(s@),
            JsonNode::Array(items) => JsonModel::Array(values_model(items@)),
            JsonNode::Object(entries) => JsonModel::Object(members_model(entries@)),
        }
    }

    /// No key stands twice.
    pub open spec fn valid(self) -> bool {
        match self {
            JsonNode::Object(entries) => distinct_keys(members_model(entries@)),
            _ => true,
        }
    }
}

/// Tells the variants of a `serde_json::Value` apart. An object hands out its
/// entries in their order, and has no key twice.
#[verifier::external_body]
fn open_value(value: serde_json::Value) -> (node: JsonNode)
    ensures
        node.model() == json_contents(value),
        node.valid(),
{
    match value {
        serde_json::Value::Null => JsonNode::Null,
        serde_json::Value::Bool(b) => JsonNode::Bool(b),
        serde_json::Value::Number(n) => JsonNode::Number(n),
        serde_json::Value::String(s) => JsonNode::String(s),
        serde_json::Value::Array(items) => JsonNode::Array(items),
        serde_json::Value::Object(map) => JsonNode::Object(map.into_iter().collect()),
    }
}

/// Builds a `serde_json::Value` out of one level. An object takes the entries
/// in their order, which loses none where no key stands twice.
#[verifier::external_body]
fn close_node(node: JsonNode) -> (value: serde_json::Value)
    requires
        node.valid(),
    ensures
        json_contents(value) == node.model(),
{
    match node {
        JsonNode::Null => serde_json::Value::Null,
        JsonNode::Bool(b) => serde_json::Value::Bool(b),
        JsonNode::Number(n) => serde_json::Value::Number(n),
        JsonNode::String(s) => serde_json::Value::String(s),
        JsonNode::Array(items) => serde_json::Value::Array(items),
        JsonNode::Object(entries) => serde_json::Value::Object(entries.into_iter().collect()),
    }
}

/// The library's value for one of `serde_json`'s.
pub fn from_value(value: serde_json::Value) -> (r: Json)
    ensures
        r@ == json_contents(value),
        json_valid(r@),
    decreases json_contents(value),
{
    match open_value(value) {
        JsonNode::Null => Json::Null,
        JsonNode::Bool(b) => Json::Bool(b),
        JsonNode::Number(n) => Json::Number(n),
        JsonNode::String(s) => Json::String(s),
        JsonNode::Array(items) => {
            let ghost all = items@;
            let mut out: Vec<Json> = Vec::new();
            for item in it: items
                invariant
                    json_contents(value) == JsonModel::Array(values_model(all)),
                    it.seq() == all,
                    out@.len() == it.index(),
                    forall|i: int|
                        0 <= i < out@.len() ==> (#[trigger] out@[i])@ == json_contents(all[i])
                            && json_valid(out@[i]@),
            {
                assert(json_contents(value)->Array_0[it.index() as int] == json_contents(item));
                out.push(from_value(item));
            }
            proof {
                lemma_array_model(out);
                assert(items_model(out@) =~= values_model(all));
                assert forall|i: int| 0 <= i < all.len() implies json_valid(
                    #[trigger] values_model(all)[i],
                ) by {
                    assert(json_valid(out@[i]@));
                }
            }
            Json::Array(out)
        },
        JsonNode::Object(entries) => {
            let ghost all = entries@;
            let mut out: Vec<(String, Json)> = Vec::new();
            for entry in it: entries
                invariant
                    json_contents(value) == JsonModel::Object(members_model(all)),
                    it.seq() == all,
                    out@.len() == it.index(),
                    forall|i: int|
                        0 <= i < out@.len() ==> (#[trigger] out@[i]).0@ == all[i].0@
                            && out@[i].1@ == json_contents(all[i].1) && json_valid(out@[i].1@),
            {
                assert(json_contents(value)->Object_0[it.index() as int].1 == json_contents(
                    entry.1,
                ));
                let (key, inner) = entry;
                out.push((key, from_value(inner)));
            }
            proof {
                lemma_object_model(out);
                assert(entries_model(out@) =~= members_model(all));
                assert forall|i: int| 0 <= i < all.len() implies json_valid(
                    (#[trigger] members_model(all)[i]).1,
                ) by {
                    assert(json_valid(out@[i].1@));
                }
            }
            Json::Object(out)
        },
    }
}

/// `serde_json`'s value for one of the library's.
pub fn into_value(json: Json) -> (r: serde_json::Value)
    requires
        json_valid(json@),
    ensures
        json_contents(r) == json@,
    decreases json@,
{
    match json {
        Json::Null => close_node(JsonNode::Null),
        Json::Bool(b) => close_node(JsonNode::Bool(b)),
        Json::Number(n) => close_node(JsonNode::Number(n)),
        Json::String(s) => close_node(JsonNode::String(s)),
        Json::Array(items) => {
            let ghost all = items@;
            proof {
                lemma_array_model(items);
            }
            let mut out: Vec<serde_json::Value> = Vec::new();
            for item in it: items
                invariant
                    json@ == JsonModel::Array(items_model(all)),
                    json_valid(json@),
                    it.seq() == all,
                    out@.len() == it.index(),
                    forall|i: int|
                        0 <= i < out@.len() ==> json_contents(#[trigger] out@[i]) == all[i]@,
            {
                assert(json@->Array_0[it.index() as int] == item@);
                out.push(into_value(item));
            }
            assert(values_model(out@) =~= items_model(all));
            close_node(JsonNode::Array(out))
        },
        Json::Object(entries) => {
            let ghost all = entries@;
            proof {
                lemma_object_model(entries);
            }
            let mut out: Vec<(String, serde_json::Value)> = Vec::new();
            for entry in it: entries
                invariant
                    json@ == JsonModel::Object(entries_model(all)),
                    json_valid(json@),
                    it.seq() == all,
                    out@.len() == it.index(),
                    forall|i: int|
                        0 <= i < out@.len() ==> (#[trigger] out@[i]).0@ == all[i].0@
                            && json_contents(out@[i].1) == all[i].1@,
            {
                assert(json@->Object_0[it.index() as int].1 == entry.1@);
                let (key, inner) = entry;
                out.push((key, into_value(inner)));
            }
            assert(members_model(out@) =~= entries_model(all));
            close_node(JsonNode::Object(out))
        },
    }
}

/// Calls `json5::from_str` for a `serde_json::Value`. What comes back, value or
/// error, depends on the text alone.
#[verifier::external_body]
fn json5_from_str(source: &str) -> (r: Result<serde_json::Value, String>)
    ensures
        match r {
            Ok(value) => json5_read(source@) == Ok::<JsonModel, Seq<char>>(json_contents(value)),
            Err(words) => json5_read(source@) == Err::<JsonModel, Seq<char>>(words@),
        },
{
    json5::from_str::<serde_json::Value>(source).map_err(|error| error.to_string())
}

/// Reads JSON5 text.
pub fn read_json5(source: &str) -> (r: Result<Json, String>)
    ensures
        match r {
            Ok(value) => json5_read(source@) == Ok::<JsonModel, Seq<char>>(value@) && json_valid(
                value@,
            ),
            Err(words) => json5_read(source@) == Err::<JsonModel, Seq<char>>(words@),
        },
{
    match json5_from_str(source) {
        Ok(value) => Ok(from_value(value)),
        Err(words) => Err(words),
    }
}

/// Text that JSON strings may hold raw and JSON5 strings may too: no line
/// separator and no paragraph separator.
pub open spec fn json5_text(s: Seq<char>) -> bool {
    forall|i: int| 0 <= i < s.len() ==> s[i] != '\u{2028}' && s[i] != '\u{2029}'
}

/// A value whose JSON text reads as that value when it is read as JSON5: no
/// string or key holds a separator that ends a JSON5 line, and no integer is
/// above the range of `i64`.
pub open spec fn json5_safe(value: JsonModel) -> bool
    decreases value,
{
    match value {
        JsonModel::Number(NumberModel::Integer(n)) => n <= i64::MAX,
        JsonModel::String(s) => json5_text(s),
        JsonModel::Array(items) => forall|i: int|
            0 <= i < items.len() ==> json5_safe(#[trigger] items[i]),
        JsonModel::Object(entries) => forall|i: int|
            0 <= i < entries.len() ==> json5_text((#[trigger] entries[i]).0) && json5_safe(
                entries[i].1,
            ),
        _ => true,
    }
}

/// Calls `serde_json::to_vec_pretty`. It never fails on a `serde_json::Value`,
/// its bytes are the UTF-8 of a text that depends on the value alone, and
/// `json5` reads that text, a line feed put behind it, as the value that was
/// written, if the value is [`json5_safe`].
#[verifier::external_body]
fn to_vec_pretty(value: &serde_json::Value) -> (r: Result<Vec<u8>, String>)
    ensures
        match r {
            Ok(bytes) => {
                &&& bytes@ == encode_utf8(json_pretty(json_contents(*value)))
                &&& json5_safe(json_contents(*value)) ==> json5_read(
                    json_pretty(json_contents(*value)).push('\n'),
                ) == Ok::<JsonModel, Seq<char>>(json_contents(*value))
            },
            Err(_) => false,
        },
{
    serde_json::to_vec_pretty(value).map_err(|error| error.to_string())
}

/// Writes indented JSON text, as bytes.
pub fn write_json(value: Json) -> (r: Result<Vec<u8>, String>)
    requires
        json_valid(value@),
    ensures
        match r {
            Ok(bytes) => {
                &&& bytes@ == encode_utf8(json_pretty(value@))
                &&& json5_safe(value@) ==> json5_read(json_pretty(value@).push('\n')) == Ok::<
                    JsonModel,
                    Seq<char>,
                >(value@)
            },
            Err(_) => false,
        },
{
    to_vec_pretty(&into_value(value))
}

} // verus!
