//! What holds of finding, setting and taking out entries, told by the places at
//! which they stand, of the equality of values, and of their size.

use vstd::prelude::*;

use crate::json::{
    distinct_keys, has_key, json_same, key_index, lookup, with_entry, without_entry,
    JsonModel, NumberModel,
};
use crate::text::{lemma_first_where, lemma_first_where_holds};
use crate::yaml::{
    entries_size, is_key, items_size, mapping_of, reads_as, untagged, width, with_mapping,
    with_yaml_entry, yaml_index, yaml_lookup, yaml_size, YamlModel,
};

verus! {

/// The key stands at place `i`, and at no place before.
pub open spec fn stands_at<V>(entries: Seq<(Seq<char>, V)>, key: Seq<char>, i: int) -> bool {
    &&& 0 <= i < entries.len()
    &&& entries[i].0 == key
    &&& forall|j: int| 0 <= j < i ==> (#[trigger] entries[j]).0 != key
}

/// The key stands at no place.
pub open spec fn stands_nowhere<V>(entries: Seq<(Seq<char>, V)>, key: Seq<char>) -> bool {
    forall|j: int| 0 <= j < entries.len() ==> (#[trigger] entries[j]).0 != key
}

/// A key stands at some place or at none.
pub proof fn lemma_stands_somewhere<V>(entries: Seq<(Seq<char>, V)>, key: Seq<char>)
    ensures
        stands_nowhere(entries, key) || exists|i: int| stands_at(entries, key, i),
{
    lemma_first_where_holds(entries, has_key(key));
    let i = key_index(entries, key) as int;
    if i < entries.len() {
        assert forall|j: int| 0 <= j < i implies (#[trigger] entries[j]).0 != key by {
            assert(!has_key::<V>(key)(entries[j]));
        }
        assert(has_key::<V>(key)(entries[i]));
        assert(stands_at(entries, key, i));
    } else {
        assert forall|j: int| 0 <= j < entries.len() implies (#[trigger] entries[j]).0 != key by {
            assert(!has_key::<V>(key)(entries[j]));
        }
    }
}

/// A key is found at the first place where it stands, whichever that is, and what
/// is found is what stands there.
pub proof fn law_lookup_finds_what_stands<V>(
    entries: Seq<(Seq<char>, V)>,
    key: Seq<char>,
    i: int,
)
    requires
        stands_at(entries, key, i),
    ensures
        key_index(entries, key) == i,
        lookup(entries, key) == Some(entries[i].1),
{
    assert forall|j: int| 0 <= j < i implies !has_key::<V>(key)(#[trigger] entries[j]) by {}
    lemma_first_where(entries, has_key(key), i);
}

/// A key that stands nowhere is not found.
pub proof fn law_lookup_finds_nothing_else<V>(entries: Seq<(Seq<char>, V)>, key: Seq<char>)
    requires
        stands_nowhere(entries, key),
    ensures
        key_index(entries, key) == entries.len(),
        lookup(entries, key) is None,
{
    assert forall|j: int| 0 <= j < entries.len() implies !has_key::<V>(key)(
        #[trigger] entries[j],
    ) by {}
    lemma_first_where(entries, has_key(key), entries.len() as int);
}

/// A value is put where its key stands, and nothing else changes.
pub proof fn law_value_is_put_in_place<V>(
    entries: Seq<(Seq<char>, V)>,
    key: Seq<char>,
    value: V,
    i: int,
)
    requires
        stands_at(entries, key, i),
    ensures
        with_entry(entries, key, value) == entries.update(i, (key, value)),
{
    law_lookup_finds_what_stands(entries, key, i);
}

/// A value is put at the end where its key stands nowhere, and nothing else
/// changes.
pub proof fn law_new_value_is_put_at_the_end<V>(
    entries: Seq<(Seq<char>, V)>,
    key: Seq<char>,
    value: V,
)
    requires
        stands_nowhere(entries, key),
    ensures
        with_entry(entries, key, value) == entries.push((key, value)),
{
    law_lookup_finds_nothing_else(entries, key);
}

/// Where a key is taken out the last entry comes in, and nothing else changes.
pub proof fn law_last_entry_fills_the_gap<V>(
    entries: Seq<(Seq<char>, V)>,
    key: Seq<char>,
    i: int,
)
    requires
        stands_at(entries, key, i),
    ensures
        without_entry(entries, key).len() == entries.len() - 1,
        forall|j: int|
            0 <= j < entries.len() - 1 ==> #[trigger] without_entry(entries, key)[j] == if j == i {
                entries[entries.len() - 1]
            } else {
                entries[j]
            },
{
    law_lookup_finds_what_stands(entries, key, i);
}

/// Taking out a key that stands nowhere changes nothing.
pub proof fn law_nothing_is_taken_out<V>(entries: Seq<(Seq<char>, V)>, key: Seq<char>)
    requires
        stands_nowhere(entries, key),
    ensures
        without_entry(entries, key) == entries,
{
    law_lookup_finds_nothing_else(entries, key);
}

/// Null, truth values and texts are equal only to themselves; numbers are equal
/// as integers, as doubles of the same bits, or as doubles that are both zero.
pub proof fn law_equal_scalars(a: JsonModel, b: JsonModel)
    requires
        !(a is Array),
        !(a is Object),
    ensures
        json_same(a, b) <==> match (a, b) {
            (
                JsonModel::Number(NumberModel::Double(x)),
                JsonModel::Number(NumberModel::Double(y)),
            ) => x == y || ((x == 0 || x == 0x8000_0000_0000_0000) && (y == 0 || y
                == 0x8000_0000_0000_0000)),
            _ => a == b,
        },
{
}

/// Arrays are equal if they are as long and equal element by element, and an
/// array is equal to nothing else.
pub proof fn law_equal_arrays(items: Seq<JsonModel>, b: JsonModel)
    ensures
        json_same(JsonModel::Array(items), b) <==> b is Array && b->Array_0.len() == items.len()
            && forall|i: int|
            0 <= i < items.len() ==> json_same(#[trigger] items[i], b->Array_0[i]),
{
}

/// Objects are equal if they have as many entries and each entry of the one
/// stands, at some place, in the other with an equal value; an object is equal to
/// nothing else.
pub proof fn law_equal_objects(entries: Seq<(Seq<char>, JsonModel)>, b: JsonModel)
    requires
        b is Object ==> distinct_keys(b->Object_0),
    ensures
        json_same(JsonModel::Object(entries), b) <==> b is Object && b->Object_0.len()
            == entries.len() && forall|i: int|
            0 <= i < entries.len() ==> exists|j: int|
                0 <= j < b->Object_0.len() && (#[trigger] b->Object_0[j]).0 == (
                #[trigger] entries[i]).0 && json_same(entries[i].1, b->Object_0[j].1),
{
    if b is Object {
        let others = b->Object_0;
        assert forall|i: int| 0 <= i < entries.len() implies (match lookup(
            others,
            (#[trigger] entries[i]).0,
        ) {
            Some(found) => json_same(entries[i].1, found),
            None => false,
        } <==> exists|j: int|
            0 <= j < others.len() && (#[trigger] others[j]).0 == entries[i].0 && json_same(
                entries[i].1,
                others[j].1,
            )) by {
            let key = entries[i].0;
            lemma_stands_somewhere(others, key);
            if stands_nowhere(others, key) {
                law_lookup_finds_nothing_else(others, key);
            } else {
                let k = choose|k: int| stands_at(others, key, k);
                law_lookup_finds_what_stands(others, key, k);
                assert(others[k].0 == key);
            }
        }
    }
}

/// The key at place `i` is the string, under its tags, and none before is.
pub open spec fn reads_at(
    entries: Seq<(YamlModel, YamlModel)>,
    key: Seq<char>,
    i: int,
) -> bool {
    &&& 0 <= i < entries.len()
    &&& untagged(entries[i].0) == YamlModel::String(key)
    &&& forall|j: int|
        0 <= j < i ==> untagged((#[trigger] entries[j]).0) != YamlModel::String(key)
}

/// No key is the string, tagged or not.
pub open spec fn reads_nowhere(entries: Seq<(YamlModel, YamlModel)>, key: Seq<char>) -> bool {
    forall|j: int|
        0 <= j < entries.len() ==> untagged((#[trigger] entries[j]).0) != YamlModel::String(key)
}

/// The key at place `i` is the string itself, and none before is.
pub open spec fn written_at(
    entries: Seq<(YamlModel, YamlModel)>,
    key: Seq<char>,
    i: int,
) -> bool {
    &&& 0 <= i < entries.len()
    &&& entries[i].0 == YamlModel::String(key)
    &&& forall|j: int| 0 <= j < i ==> (#[trigger] entries[j]).0 != YamlModel::String(key)
}

/// No key is the string itself.
pub open spec fn written_nowhere(entries: Seq<(YamlModel, YamlModel)>, key: Seq<char>) -> bool {
    forall|j: int|
        0 <= j < entries.len() ==> (#[trigger] entries[j]).0 != YamlModel::String(key)
}

/// Tags are looked through, one after the other, and nothing else is.
pub proof fn law_tags_are_looked_through(tag: Seq<char>, inner: YamlModel)
    ensures
        untagged(YamlModel::Tagged(tag, Box::new(inner))) == untagged(inner),
        !(inner is Tagged) ==> untagged(inner) == inner,
        mapping_of(inner) == match untagged(inner) {
            YamlModel::Mapping(entries) => Some(entries),
            _ => None::<Seq<(YamlModel, YamlModel)>>,
        },
{
}

/// Other entries are put under the tags, which stay.
pub proof fn law_tags_stay(
    tag: Seq<char>,
    inner: YamlModel,
    before: Seq<(YamlModel, YamlModel)>,
    after: Seq<(YamlModel, YamlModel)>,
)
    ensures
        with_mapping(YamlModel::Mapping(before), after) == YamlModel::Mapping(after),
        with_mapping(YamlModel::Tagged(tag, Box::new(inner)), after) == YamlModel::Tagged(
            tag,
            Box::new(with_mapping(inner, after)),
        ),
{
}

/// A string is found at the first place where a key is it, under its tags.
pub proof fn law_yaml_lookup_finds_what_stands(
    entries: Seq<(YamlModel, YamlModel)>,
    key: Seq<char>,
    i: int,
)
    requires
        reads_at(entries, key, i),
    ensures
        yaml_index(entries, key) == i,
        yaml_lookup(entries, key) == Some(entries[i].1),
{
    assert forall|j: int| 0 <= j < i implies !reads_as(key)(#[trigger] entries[j]) by {}
    lemma_first_where(entries, reads_as(key), i);
}

/// A string that no key is is not found.
pub proof fn law_yaml_lookup_finds_nothing_else(
    entries: Seq<(YamlModel, YamlModel)>,
    key: Seq<char>,
)
    requires
        reads_nowhere(entries, key),
    ensures
        yaml_index(entries, key) == entries.len(),
        yaml_lookup(entries, key) is None,
{
    assert forall|j: int| 0 <= j < entries.len() implies !reads_as(key)(#[trigger] entries[j]) by {}
    lemma_first_where(entries, reads_as(key), entries.len() as int);
}

/// A value is put where the string itself is the key, and nothing else changes.
pub proof fn law_yaml_value_is_put_in_place(
    entries: Seq<(YamlModel, YamlModel)>,
    key: Seq<char>,
    value: YamlModel,
    i: int,
)
    requires
        written_at(entries, key, i),
    ensures
        with_yaml_entry(entries, key, value) == entries.update(
            i,
            (YamlModel::String(key), value),
        ),
{
    assert forall|j: int| 0 <= j < i implies !is_key(key)(#[trigger] entries[j]) by {}
    lemma_first_where(entries, is_key(key), i);
}

/// A value is put at the end where no key is the string itself, and nothing else
/// changes.
pub proof fn law_new_yaml_value_is_put_at_the_end(
    entries: Seq<(YamlModel, YamlModel)>,
    key: Seq<char>,
    value: YamlModel,
)
    requires
        written_nowhere(entries, key),
    ensures
        with_yaml_entry(entries, key, value) == entries.push((YamlModel::String(key), value)),
{
    assert forall|j: int| 0 <= j < entries.len() implies !is_key(key)(#[trigger] entries[j]) by {}
    lemma_first_where(entries, is_key(key), entries.len() as int);
}

/// A text is counted by its characters, on top of what is counted for any value:
/// one for each character that is never escaped, and no more than six for any.
pub proof fn law_text_is_counted_by_its_characters(s: Seq<char>)
    ensures
        32 + s.len() <= yaml_size(YamlModel::String(s)) <= 32 + 6 * s.len(),
        (forall|i: int|
            0 <= i < s.len() ==> ' ' <= #[trigger] s[i] <= '~' && s[i] != '\'' && s[i] != '"'
                && s[i] != '\\') ==> yaml_size(YamlModel::String(s)) == 32 + s.len(),
    decreases s.len(),
{
    if s.len() > 0 {
        let rest = s.drop_last();
        law_text_is_counted_by_its_characters(rest);
        if forall|i: int|
            0 <= i < s.len() ==> ' ' <= #[trigger] s[i] <= '~' && s[i] != '\'' && s[i] != '"'
                && s[i] != '\\' {
            assert forall|i: int| 0 <= i < rest.len() implies ' ' <= #[trigger] rest[i] <= '~'
                && rest[i] != '\'' && rest[i] != '"' && rest[i] != '\\' by {
                assert(rest[i] == s[i]);
            }
        }
    }
}

/// The first elements are counted the same, whatever comes behind them.
proof fn lemma_items_counted(items: Seq<YamlModel>, more: YamlModel, n: nat)
    requires
        n <= items.len(),
    ensures
        items_size(items.push(more), n) == items_size(items, n),
    decreases n,
{
    if n > 0 {
        lemma_items_counted(items, more, (n - 1) as nat);
    }
}

/// The first entries are counted the same, whatever comes behind them.
proof fn lemma_entries_counted(
    entries: Seq<(YamlModel, YamlModel)>,
    more: (YamlModel, YamlModel),
    n: nat,
)
    requires
        n <= entries.len(),
    ensures
        entries_size(entries.push(more), n) == entries_size(entries, n),
    decreases n,
{
    if n > 0 {
        lemma_entries_counted(entries, more, (n - 1) as nat);
    }
}

/// One more element, or one more entry, adds its own size; a scalar has the size
/// that is counted for any value.
pub proof fn law_sizes_add_up(
    items: Seq<YamlModel>,
    item: YamlModel,
    entries: Seq<(YamlModel, YamlModel)>,
    entry: (YamlModel, YamlModel),
    b: bool,
    number: NumberModel,
)
    ensures
        yaml_size(YamlModel::Null) == 32,
        yaml_size(YamlModel::Bool(b)) == 32,
        yaml_size(YamlModel::Number(number)) == 32,
        yaml_size(YamlModel::Sequence(Seq::empty())) == 32,
        yaml_size(YamlModel::Mapping(Seq::empty())) == 32,
        yaml_size(YamlModel::Sequence(items.push(item))) == yaml_size(YamlModel::Sequence(items))
            + yaml_size(item),
        yaml_size(YamlModel::Mapping(entries.push(entry))) == yaml_size(
            YamlModel::Mapping(entries),
        ) + yaml_size(entry.0) + yaml_size(entry.1),
{
    lemma_items_counted(items, item, items.len());
    lemma_entries_counted(entries, entry, entries.len());
    let no_items = Seq::<YamlModel>::empty();
    let no_entries = Seq::<(YamlModel, YamlModel)>::empty();
    assert(items_size(no_items, no_items.len()) == 0);
    assert(entries_size(no_entries, no_entries.len()) == 0);
    let more_items = items.push(item);
    let more_entries = entries.push(entry);
    assert(items_size(more_items, more_items.len()) == items_size(items, items.len()) + yaml_size(
        item,
    ));
    assert(entries_size(more_entries, more_entries.len()) == entries_size(entries, entries.len())
        + yaml_size(entry.0) + yaml_size(entry.1));
}

/// How much the characters of a tag take.
proof fn lemma_tag_counted(s: Seq<char>)
    ensures
        3 * s.len() <= width(s, true) <= 12 * s.len(),
        (forall|i: int| 0 <= i < s.len() ==> #[trigger] s[i] <= '\u{7f}') ==> width(s, true) == 3
            * s.len(),
    decreases s.len(),
{
    if s.len() > 0 {
        let rest = s.drop_last();
        lemma_tag_counted(rest);
        if forall|i: int| 0 <= i < s.len() ==> #[trigger] s[i] <= '\u{7f}' {
            assert forall|i: int| 0 <= i < rest.len() implies #[trigger] rest[i] <= '\u{7f}' by {
                assert(rest[i] == s[i]);
            }
        }
    }
}

/// A tag adds, for its mark and for each of its characters, three if all of them
/// are ASCII and no more than twelve otherwise, on top of what is counted for any
/// value and for what it tags.
pub proof fn law_tag_is_counted_by_its_characters(tag: Seq<char>, inner: YamlModel)
    ensures
        ({
            let size = yaml_size(YamlModel::Tagged(tag, Box::new(inner)));
            &&& 32 + 3 * (tag.len() + 1) + yaml_size(inner) <= size
            &&& size <= 32 + 12 * (tag.len() + 1) + yaml_size(inner)
            &&& (forall|i: int| 0 <= i < tag.len() ==> #[trigger] tag[i] <= '\u{7f}') ==> size == 32
                + 3 * (tag.len() + 1) + yaml_size(inner)
        }),
{
    let marked = seq!['!'] + tag;
    lemma_tag_counted(marked);
    if forall|i: int| 0 <= i < tag.len() ==> #[trigger] tag[i] <= '\u{7f}' {
        assert forall|i: int| 0 <= i < marked.len() implies #[trigger] marked[i] <= '\u{7f}' by {
            if i > 0 {
                assert(marked[i] == tag[i - 1]);
            }
        }
    }
}

} // verus!
