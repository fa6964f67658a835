//! YAML text: reading and writing it with `serde_yaml`.

use vstd::prelude::*;

use crate::text::trimmed;
use crate::yaml::{
    distinct_yaml_keys, lemma_mapping_model, lemma_sequence_model, mapping_model, sequence_model,
    yaml_number, yaml_size, yaml_tag, yaml_valid, Yaml, YamlModel,
};

verus! {

/// `serde_yaml`'s value, on its way to a [`Yaml`] or from one.
#[verifier::external_type_specification]
#[verifier::external_body]
pub struct ExYamlValue(serde_yaml::Value);

/// What a `serde_yaml` value holds.
pub uninterp spec fn yaml_contents(value: serde_yaml::Value) -> YamlModel;

/// What `serde_yaml` reads out of a text, or the words of its error.
pub uninterp spec fn yaml_read(source: Seq<char>) -> Result<YamlModel, Seq<char>>;

/// The text that `serde_yaml` writes for a value that is not too large, or the
/// words of its error.
pub uninterp spec fn yaml_write(value: YamlModel) -> Result<Seq<char>, Seq<char>>;

/// One level of a `serde_yaml` value.
pub enum YamlNode {
    Null,
    Bool(bool),
    Number(serde_yaml::Number),
    String(String),
    Sequence(Vec<serde_yaml::Value>),
    Mapping(Vec<(serde_yaml::Value, serde_yaml::Value)>),
    Tagged(serde_yaml::value::Tag, serde_yaml::Value),
}

/// What the elements of a sequence hold.
pub open spec fn elements_model(items: Seq<serde_yaml::Value>) -> Seq<YamlModel> {
    items.map_values(|item: serde_yaml::Value| yaml_contents(item))
}

/// What the entries of a mapping hold.
pub open spec fn pairs_model(entries: Seq<(serde_yaml::Value, serde_yaml::Value)>) -> Seq<
    (YamlModel, YamlModel),
> {
    entries.map_values(
        |entry: (serde_yaml::Value, serde_yaml::Value)|
            (yaml_contents(entry.0), yaml_contents(entry.1)),
    )
}

/// Tells the variants of a `serde_yaml::Value` apart. A mapping hands out its
/// entries in their order, no two of them under equal keys.
#[verifier::external_body]
fn open_yaml(value: serde_yaml::Value) -> (node: YamlNode)
    ensures
        match node {
            YamlNode::Null => yaml_contents(value) == YamlModel::Null,
            YamlNode::Bool(b) => yaml_contents(value) == YamlModel::Bool(b),
            YamlNode::Number(n) => yaml_contents(value) == YamlModel::Number(yaml_number(n)),
            YamlNode::String(s) => yaml_contents(value) == YamlModel::String(s@),
            YamlNode::Sequence(items) => yaml_contents(value) == YamlModel::Sequence(
                elements_model(items@),
            ),
            YamlNode::Mapping(entries) => {
                &&& yaml_contents(value) == YamlModel::Mapping(pairs_model(entries@))
                &&& distinct_yaml_keys(pairs_model(entries@))
            },
            YamlNode::Tagged(tag, inner) => yaml_contents(value) == YamlModel::Tagged(
                yaml_tag(tag),
                Box::new(yaml_contents(inner)),
            ),
        },
{
    match value {
        serde_yaml::Value::Null => YamlNode::Null,
        serde_yaml::Value::Bool(b) => YamlNode::Bool(b),
        serde_yaml::Value::Number(n) => YamlNode::Number(n),
        serde_yaml::Value::String(s) => YamlNode::String(s),
        serde_yaml::Value::Sequence(items) => YamlNode::Sequence(items),
        serde_yaml::Value::Mapping(map) => YamlNode::Mapping(map.into_iter().collect()),
        serde_yaml::Value::Tagged(tagged) => YamlNode::Tagged(tagged.tag, tagged.value),
    }
}

/// Builds a `serde_yaml::Value` out of one level. A mapping takes the entries
/// in their order, which loses none where no two keys are equal.
#[verifier::external_body]
fn close_yaml(node: YamlNode) -> (value: serde_yaml::Value)
    requires
        node matches YamlNode::Mapping(entries) ==> distinct_yaml_keys(pairs_model(entries@)),
    ensures
        match node {
            YamlNode::Null => yaml_contents(value) == YamlModel::Null,
            YamlNode::Bool(b) => yaml_contents(value) == YamlModel::Bool(b),
            YamlNode::Number(n) => yaml_contents(value) == YamlModel::Number(yaml_number(n)),
            YamlNode::String(s) => yaml_contents(value) == YamlModel::String(s@),
            YamlNode::Sequence(items) => yaml_contents(value) == YamlModel::Sequence(
                elements_model(items@),
            ),
            YamlNode::Mapping(entries) => yaml_contents(value) == YamlModel::Mapping(
                pairs_model(entries@),
            ),
            YamlNode::Tagged(tag, inner) => yaml_contents(value) == YamlModel::Tagged(
                yaml_tag(tag),
                Box::new(yaml_contents(inner)),
            ),
        },
{
    match node {
        YamlNode::Null => serde_yaml::Value::Null,
        YamlNode::Bool(b) => serde_yaml::Value::Bool(b),
        YamlNode::Number(n) => serde_yaml::Value::Number(n),
        YamlNode::String(s) => serde_yaml::Value::String(s),
        YamlNode::Sequence(items) => serde_yaml::Value::Sequence(items),
        YamlNode::Mapping(entries) => serde_yaml::Value::Mapping(entries.into_iter().collect()),
        YamlNode::Tagged(tag, value) => serde_yaml::Value::Tagged(
            Box::new(serde_yaml::value::TaggedValue { tag, value }),
        ),
    }
}

/// The library's value for one of `serde_yaml`'s.
pub fn from_yaml_value(value: serde_yaml::Value) -> (r: Yaml)
    ensures
        r@ == yaml_contents(value),
        yaml_valid(r@),
    decreases yaml_contents(value),
{
    match open_yaml(value) {
        YamlNode::Null => Yaml::Null,
        YamlNode::Bool(b) => Yaml::Bool(b),
        YamlNode::Number(n) => Yaml::Number(n),
        YamlNode::String(s) => Yaml::String(s),
        YamlNode::Sequence(items) => {
            let ghost all = items@;
            let mut out: Vec<Yaml> = Vec::new();
            for item in it: items
                invariant
                    yaml_contents(value) == YamlModel::Sequence(elements_model(all)),
                    it.seq() == all,
                    out@.len() == it.index(),
                    forall|i: int|
                        0 <= i < out@.len() ==> (#[trigger] out@[i])@ == yaml_contents(all[i])
                            && yaml_valid(out@[i]@),
            {
                assert(yaml_contents(value)->Sequence_0[it.index() as int] == yaml_contents(item));
                out.push(from_yaml_value(item));
            }
            proof {
                lemma_sequence_model(out);
                assert(sequence_model(out@) =~= elements_model(all));
                assert forall|i: int| 0 <= i < all.len() implies yaml_valid(
                    #[trigger] elements_model(all)[i],
                ) by {
                    assert(yaml_valid(out@[i]@));
                }
            }
            Yaml::Sequence(out)
        },
        YamlNode::Mapping(entries) => {
            let ghost all = entries@;
            let mut out: Vec<(Yaml, Yaml)> = Vec::new();
            for entry in it: entries
                invariant
                    yaml_contents(value) == YamlModel::Mapping(pairs_model(all)),
                    it.seq() == all,
                    out@.len() == it.index(),
                    forall|i: int|
                        0 <= i < out@.len() ==> (#[trigger] out@[i]).0@ == yaml_contents(all[i].0)
                            && out@[i].1@ == yaml_contents(all[i].1) && yaml_valid(out@[i].0@)
                            && yaml_valid(out@[i].1@),
            {
                assert(yaml_contents(value)->Mapping_0[it.index() as int].0 == yaml_contents(
                    entry.0,
                ));
                assert(yaml_contents(value)->Mapping_0[it.index() as int].1 == yaml_contents(
                    entry.1,
                ));
                let (key, inner) = entry;
                out.push((from_yaml_value(key), from_yaml_value(inner)));
            }
            proof {
                lemma_mapping_model(out);
                assert(mapping_model(out@) =~= pairs_model(all));
                assert forall|i: int| 0 <= i < all.len() implies yaml_valid(
                    (#[trigger] pairs_model(all)[i]).0,
                ) && yaml_valid(pairs_model(all)[i].1) by {
                    assert(yaml_valid(out@[i].0@));
                }
            }
            Yaml::Mapping(out)
        },
        YamlNode::Tagged(tag, inner) => {
            assert(*yaml_contents(value)->Tagged_1 == yaml_contents(inner));
            Yaml::Tagged(tag, Box::new(from_yaml_value(inner)))
        },
    }
}

/// `serde_yaml`'s value for one of the library's.
pub fn into_yaml_value(yaml: Yaml) -> (r: serde_yaml::Value)
    requires
        yaml_valid(yaml@),
    ensures
        yaml_contents(r) == yaml@,
    decreases yaml@,
{
    match yaml {
        Yaml::Null => close_yaml(YamlNode::Null),
        Yaml::Bool(b) => close_yaml(YamlNode::Bool(b)),
        Yaml::Number(n) => close_yaml(YamlNode::Number(n)),
        Yaml::String(s) => close_yaml(YamlNode::String(s)),
        Yaml::Sequence(items) => {
            let ghost all = items@;
            proof {
                lemma_sequence_model(items);
            }
            let mut out: Vec<serde_yaml::Value> = Vec::new();
            for item in it: items
                invariant
                    yaml@ == YamlModel::Sequence(sequence_model(all)),
                    yaml_valid(yaml@),
                    it.seq() == all,
                    out@.len() == it.index(),
                    forall|i: int|
                        0 <= i < out@.len() ==> yaml_contents(#[trigger] out@[i]) == all[i]@,
            {
                assert(yaml@->Sequence_0[it.index() as int] == item@);
                out.push(into_yaml_value(item));
            }
            assert(elements_model(out@) =~= sequence_model(all));
            close_yaml(YamlNode::Sequence(out))
        },
        Yaml::Mapping(entries) => {
            let ghost all = entries@;
            proof {
                lemma_mapping_model(entries);
            }
            let mut out: Vec<(serde_yaml::Value, serde_yaml::Value)> = Vec::new();
            for entry in it: entries
                invariant
                    yaml@ == YamlModel::Mapping(mapping_model(all)),
                    yaml_valid(yaml@),
                    it.seq() == all,
                    out@.len() == it.index(),
                    forall|i: int|
                        0 <= i < out@.len() ==> yaml_contents((#[trigger] out@[i]).0) == all[i].0@
                            && yaml_contents(out@[i].1) == all[i].1@,
            {
                assert(yaml@->Mapping_0[it.index() as int].0 == entry.0@);
                assert(yaml@->Mapping_0[it.index() as int].1 == entry.1@);
                let (key, inner) = entry;
                out.push((into_yaml_value(key), into_yaml_value(inner)));
            }
            assert(pairs_model(out@) =~= mapping_model(all));
            close_yaml(YamlNode::Mapping(out))
        },
        Yaml::Tagged(tag, inner) => {
            assert(*yaml@->Tagged_1 == inner@);
            close_yaml(YamlNode::Tagged(tag, into_yaml_value(*inner)))
        },
    }
}

/// How deep `serde_yaml` reads sequences and mappings within each other.
pub const YAML_DEPTH: u64 = 128;

/// Sequences and mappings nest at most `depth` deep, and no tag stands on a tag.
pub open spec fn yaml_nested(value: YamlModel, depth: int, tagged: bool) -> bool
    decreases value,
{
    match value {
        YamlModel::Sequence(items) => {
            &&& depth > 0
            &&& forall|i: int|
                0 <= i < items.len() ==> yaml_nested(#[trigger] items[i], depth - 1, false)
        },
        YamlModel::Mapping(entries) => {
            &&& depth > 0
            &&& forall|i: int|
                0 <= i < entries.len() ==> yaml_nested((#[trigger] entries[i]).0, depth - 1, false)
                    && yaml_nested(entries[i].1, depth - 1, false)
        },
        YamlModel::Tagged(_, inner) => !tagged && yaml_nested(*inner, depth, true),
        _ => true,
    }
}

/// Calls `serde_yaml::from_str` for a `serde_yaml::Value`. What comes back,
/// value or error, depends on the text alone. A value is nested at most
/// [`YAML_DEPTH`] deep, and has no tag on a tag.
#[verifier::external_body]
fn yaml_from_str(source: &str) -> (r: Result<serde_yaml::Value, String>)
    ensures
        match r {
            Ok(value) => {
                &&& yaml_read(source@) == Ok::<YamlModel, Seq<char>>(yaml_contents(value))
                &&& yaml_nested(yaml_contents(value), YAML_DEPTH as int, false)
            },
            Err(words) => yaml_read(source@) == Err::<YamlModel, Seq<char>>(words@),
        },
{
    serde_yaml::from_str::<serde_yaml::Value>(source).map_err(|error| error.to_string())
}

/// Reads YAML text.
pub fn read_yaml(source: &str) -> (r: Result<Yaml, String>)
    ensures
        match r {
            Ok(value) => {
                &&& yaml_read(source@) == Ok::<YamlModel, Seq<char>>(value@)
                &&& yaml_valid(value@)
                &&& yaml_nested(value@, YAML_DEPTH as int, false)
            },
            Err(words) => yaml_read(source@) == Err::<YamlModel, Seq<char>>(words@),
        },
{
    match yaml_from_str(source) {
        Ok(value) => Ok(from_yaml_value(value)),
        Err(words) => Err(words),
    }
}

/// A tag that is not read as another one: no mark in front, but for the tag that
/// is one mark alone, and no zero character.
pub open spec fn plain_tag(tag: Seq<char>) -> bool {
    &&& tag.len() > 1 ==> tag[0] != '!'
    &&& forall|i: int| 0 <= i < tag.len() ==> tag[i] != '\0'
}

/// No tag, at any depth, is read as another one.
pub open spec fn plain_tags(value: YamlModel) -> bool
    decreases value,
{
    match value {
        YamlModel::Sequence(items) => forall|i: int|
            0 <= i < items.len() ==> plain_tags(#[trigger] items[i]),
        YamlModel::Mapping(entries) => forall|i: int|
            0 <= i < entries.len() ==> plain_tags((#[trigger] entries[i]).0) && plain_tags(
                entries[i].1,
            ),
        YamlModel::Tagged(tag, inner) => plain_tag(tag) && plain_tags(*inner),
        _ => true,
    }
}

/// A tag that is read as it is written: a plain one with none of the characters
/// that end a tag.
pub open spec fn safe_tag(tag: Seq<char>) -> bool {
    &&& plain_tag(tag)
    &&& forall|i: int| 0 <= i < tag.len() ==> tag[i] != ',' && tag[i] != '[' && tag[i] != ']'
}

/// A key that may be the only one of its mapping: neither tagged nor a mapping
/// with one entry.
pub open spec fn lone_key(key: YamlModel) -> bool {
    match key {
        YamlModel::Tagged(_, _) => false,
        YamlModel::Mapping(entries) => entries.len() != 1,
        _ => true,
    }
}

/// A value whose YAML text reads as that value: sequences and mappings nest at
/// most `depth` deep, no tag stands on a tag or has a character that ends it,
/// and the only key of a mapping that is not `tagged` is fit to be that.
pub open spec fn yaml_safe(value: YamlModel, depth: int, tagged: bool) -> bool
    decreases value,
{
    match value {
        YamlModel::Sequence(items) => {
            &&& depth > 0
            &&& forall|i: int|
                0 <= i < items.len() ==> yaml_safe(#[trigger] items[i], depth - 1, false)
        },
        YamlModel::Mapping(entries) => {
            &&& depth > 0
            &&& forall|i: int|
                0 <= i < entries.len() ==> yaml_safe((#[trigger] entries[i]).0, depth - 1, false)
                    && yaml_safe(entries[i].1, depth - 1, false)
            &&& entries.len() == 1 && !tagged ==> lone_key(entries[0].0)
        },
        YamlModel::Tagged(tag, inner) => {
            &&& !tagged
            &&& safe_tag(tag)
            &&& yaml_safe(*inner, depth, true)
        },
        _ => true,
    }
}

/// How large a value may be that `serde_yaml` writes: it counts the bytes of a
/// text, the columns of a line and the lines in 31 bits.
pub const YAML_SIZE: u64 = 0x7fff_ff00;

/// What a text that was written for a value is like. That of a mapping is more
/// than white space. A value that is [`yaml_safe`] is read back from it. So is
/// any other, or the text is not read at all, if it is nested as what is read is
/// and its tags are plain.
pub open spec fn yaml_text_fits(value: YamlModel, text: Seq<char>) -> bool {
    &&& value is Mapping ==> trimmed(text).len() > 0
    &&& yaml_safe(value, YAML_DEPTH as int, false) ==> yaml_read(text) == Ok::<
        YamlModel,
        Seq<char>,
    >(value)
    &&& yaml_nested(value, YAML_DEPTH as int, false) && plain_tags(value) ==> yaml_read(text) is Err
        || yaml_read(text) == Ok::<YamlModel, Seq<char>>(value)
}

/// Calls `serde_yaml::to_string` for a `serde_yaml::Value` that is not too large.
/// What comes back, text or error, depends on what the value holds alone. For a
/// value that is [`yaml_safe`] to [`YAML_DEPTH`] it is a text. What is claimed of
/// the text, that it is read back, that it is not read as something else, and
/// that it is more than white space for a mapping, is [`yaml_text_fits`].
#[verifier::external_body]
fn yaml_to_string(value: &serde_yaml::Value) -> (r: Result<String, String>)
    requires
        yaml_size(yaml_contents(*value)) <= YAML_SIZE,
    ensures
        match r {
            Ok(text) => {
                &&& yaml_write(yaml_contents(*value)) == Ok::<Seq<char>, Seq<char>>(text@)
                &&& yaml_text_fits(yaml_contents(*value), text@)
            },
            Err(words) => {
                &&& yaml_write(yaml_contents(*value)) == Err::<Seq<char>, Seq<char>>(words@)
                &&& !yaml_safe(yaml_contents(*value), YAML_DEPTH as int, false)
            },
        },
{
    serde_yaml::to_string(value).map_err(|error| error.to_string())
}

/// Writes YAML text.
pub fn write_yaml(value: Yaml) -> (r: Result<String, String>)
    requires
        yaml_valid(value@),
        yaml_size(value@) <= YAML_SIZE,
    ensures
        match r {
            Ok(text) => {
                &&& yaml_write(value@) == Ok::<Seq<char>, Seq<char>>(text@)
                &&& yaml_text_fits(value@, text@)
            },
            Err(words) => {
                &&& yaml_write(value@) == Err::<Seq<char>, Seq<char>>(words@)
                &&& !yaml_safe(value@, YAML_DEPTH as int, false)
            },
        },
{
    yaml_to_string(&into_yaml_value(value))
}

} // verus!
