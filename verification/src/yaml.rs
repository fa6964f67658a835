//! YAML values: what they hold, when two of them are equal, and how the
//! entries of a mapping are found and set.

use vstd::prelude::*;

use crate::json::{same_number, NumberModel};
use crate::text::{first_where, lemma_first_where, lemma_first_where_holds};

verus! {

/// `serde_yaml`'s number, which the library carries along and never looks into.
#[verifier::external_type_specification]
#[verifier::external_body]
pub struct ExYamlNumber(serde_yaml::Number);

/// `serde_yaml`'s tag, which the library carries along and never looks into.
#[verifier::external_type_specification]
#[verifier::external_body]
pub struct ExYamlTag(serde_yaml::value::Tag);

/// What a YAML value holds. The entries of a mapping stand in their order; a
/// tag is told without its exclamation mark.
pub enum YamlModel {
    Null,
    Bool(bool),
    Number(NumberModel),
    String(Seq<char>),
    Sequence(Seq<YamlModel>),
    Mapping(Seq<(YamlModel, YamlModel)>),
    Tagged(Seq<char>, Box<YamlModel>),
}

/// A YAML value. A mapping lists its entries in order, each key once.
#[derive(Debug)]
pub enum Yaml {
    Null,
    Bool(bool),
    Number(serde_yaml::Number),
    String(String),
    Sequence(Vec<Yaml>),
    Mapping(Vec<(Yaml, Yaml)>),
    Tagged(serde_yaml::value::Tag, Box<Yaml>),
}

/// What a `serde_yaml` number holds: its value where it is an integer, and the
/// bits of its double otherwise, of which only one is not a number.
pub uninterp spec fn yaml_number(number: serde_yaml::Number) -> NumberModel;

/// The text of a `serde_yaml` tag, without its exclamation mark.
pub uninterp spec fn yaml_tag(tag: serde_yaml::value::Tag) -> Seq<char>;

/// What the elements of a sequence hold.
pub open spec fn sequence_model(items: Seq<Yaml>) -> Seq<YamlModel> {
    items.map_values(|item: Yaml| item@)
}

/// What the entries of a mapping hold.
pub open spec fn mapping_model(entries: Seq<(Yaml, Yaml)>) -> Seq<(YamlModel, YamlModel)> {
    entries.map_values(|entry: (Yaml, Yaml)| (entry.0@, entry.1@))
}

impl Yaml {
    /// What the value holds.
    pub open spec fn model(self) -> YamlModel
        decreases self,
    {
        match self {
            Yaml::Null => YamlModel::Null,
            Yaml::Bool(b) => YamlModel::Bool(b),
            Yaml::Number(n) => YamlModel::Number(yaml_number(n)),
            Yaml::String(s) => YamlModel::String(s@),
            Yaml::Sequence(items) => YamlModel::Sequence(
                Seq::new(
                    items@.len(),
                    |i: int|
                        if 0 <= i < items@.len() {
                            items@[i].model()
                        } else {
                            YamlModel::Null
                        },
                ),
            ),
            Yaml::Mapping(entries) => YamlModel::Mapping(
                Seq::new(
                    entries@.len(),
                    |i: int|
                        if 0 <= i < entries@.len() {
                            (entries@[i].0.model(), entries@[i].1.model())
                        } else {
                            (YamlModel::Null, YamlModel::Null)
                        },
                ),
            ),
            Yaml::Tagged(tag, inner) => YamlModel::Tagged(yaml_tag(tag), Box::new(inner.model())),
        }
    }
}

impl View for Yaml {
    type V = YamlModel;

    open spec fn view(&self) -> YamlModel {
        self.model()
    }
}

/// A sequence holds what its elements hold.
pub proof fn lemma_sequence_model(items: Vec<Yaml>)
    ensures
        Yaml::Sequence(items)@ == YamlModel::Sequence(sequence_model(items@)),
{
    assert(Yaml::Sequence(items)@->Sequence_0 =~= sequence_model(items@));
}

/// A mapping holds what its entries hold.
pub proof fn lemma_mapping_model(entries: Vec<(Yaml, Yaml)>)
    ensures
        Yaml::Mapping(entries)@ == YamlModel::Mapping(mapping_model(entries@)),
{
    assert(Yaml::Mapping(entries)@->Mapping_0 =~= mapping_model(entries@));
}

/// Two values are equal, as `serde_yaml` compares them: numbers as numbers,
/// mappings without regard to order, tags and what they tag alike.
pub open spec fn yaml_same(a: YamlModel, b: YamlModel) -> bool
    decreases a,
{
    match (a, b) {
        (YamlModel::Null, YamlModel::Null) => true,
        (YamlModel::Bool(x), YamlModel::Bool(y)) => x == y,
        (YamlModel::Number(x), YamlModel::Number(y)) => same_number(x, y),
        (YamlModel::String(x), YamlModel::String(y)) => x == y,
        (YamlModel::Sequence(x), YamlModel::Sequence(y)) => {
            &&& x.len() == y.len()
            &&& forall|i: int| 0 <= i < x.len() ==> yaml_same(#[trigger] x[i], y[i])
        },
        (YamlModel::Mapping(x), YamlModel::Mapping(y)) => {
            &&& x.len() == y.len()
            &&& forall|i: int|
                0 <= i < x.len() ==> exists|j: int|
                    0 <= j < y.len() && yaml_same((#[trigger] x[i]).0, (#[trigger] y[j]).0)
                        && yaml_same(x[i].1, y[j].1)
        },
        (YamlModel::Tagged(s, x), YamlModel::Tagged(t, y)) => s == t && yaml_same(*x, *y),
        _ => false,
    }
}

/// No two keys are equal.
pub open spec fn distinct_yaml_keys(entries: Seq<(YamlModel, YamlModel)>) -> bool {
    forall|i: int, j: int|
        0 <= i < j < entries.len() ==> !yaml_same(
            (#[trigger] entries[i]).0,
            (#[trigger] entries[j]).0,
        )
}

/// No mapping, at any depth, has two equal keys.
pub open spec fn yaml_valid(value: YamlModel) -> bool
    decreases value,
{
    match value {
        YamlModel::Sequence(items) => forall|i: int|
            0 <= i < items.len() ==> yaml_valid(#[trigger] items[i]),
        YamlModel::Mapping(entries) => {
            &&& distinct_yaml_keys(entries)
            &&& forall|i: int|
                0 <= i < entries.len() ==> yaml_valid((#[trigger] entries[i]).0) && yaml_valid(
                    entries[i].1,
                )
        },
        YamlModel::Tagged(_, inner) => yaml_valid(*inner),
        _ => true,
    }
}

/// The value under all of its tags.
pub open spec fn untagged(value: YamlModel) -> YamlModel
    decreases value,
{
    match value {
        YamlModel::Tagged(_, inner) => untagged(*inner),
        _ => value,
    }
}

/// The test for a key being the string `key`, tagged or not.
pub open spec fn reads_as(key: Seq<char>) -> spec_fn((YamlModel, YamlModel)) -> bool {
    |entry: (YamlModel, YamlModel)| untagged(entry.0) == YamlModel::String(key)
}

/// Where the string `key` first stands, tagged or not: an index, or the length
/// if it stands nowhere.
pub open spec fn yaml_index(entries: Seq<(YamlModel, YamlModel)>, key: Seq<char>) -> nat {
    first_where(entries, reads_as(key))
}

/// The value under the first key that is the string `key`, tagged or not.
pub open spec fn yaml_lookup(entries: Seq<(YamlModel, YamlModel)>, key: Seq<char>) -> Option<
    YamlModel,
> {
    let i = yaml_index(entries, key) as int;
    if i < entries.len() {
        Some(entries[i].1)
    } else {
        None
    }
}

/// The test for a key being the string `key`, untagged.
pub open spec fn is_key(key: Seq<char>) -> spec_fn((YamlModel, YamlModel)) -> bool {
    |entry: (YamlModel, YamlModel)| entry.0 == YamlModel::String(key)
}

/// The entries with `value` under the string `key`: in its place if the key is
/// there untagged, and at the end otherwise.
pub open spec fn with_yaml_entry(
    entries: Seq<(YamlModel, YamlModel)>,
    key: Seq<char>,
    value: YamlModel,
) -> Seq<(YamlModel, YamlModel)> {
    let i = first_where(entries, is_key(key)) as int;
    if i < entries.len() {
        entries.update(i, (YamlModel::String(key), value))
    } else {
        entries.push((YamlModel::String(key), value))
    }
}

/// The mapping under all tags of a value, if it is one.
pub open spec fn mapping_of(value: YamlModel) -> Option<Seq<(YamlModel, YamlModel)>> {
    match untagged(value) {
        YamlModel::Mapping(entries) => Some(entries),
        _ => None,
    }
}

/// A value that is a mapping under all of its tags, with other entries in it.
pub open spec fn with_mapping(value: YamlModel, entries: Seq<(YamlModel, YamlModel)>) -> YamlModel
    decreases value,
{
    match value {
        YamlModel::Tagged(tag, inner) => YamlModel::Tagged(
            tag,
            Box::new(with_mapping(*inner, entries)),
        ),
        _ => YamlModel::Mapping(entries),
    }
}

/// Putting a value under a string gives entries in which every other entry is
/// what it was, and in which no two keys are equal that were not before.
pub proof fn lemma_with_yaml_entry(
    entries: Seq<(YamlModel, YamlModel)>,
    key: Seq<char>,
    value: YamlModel,
)
    ensures
        ({
            let after = with_yaml_entry(entries, key, value);
            let i = first_where(entries, is_key(key)) as int;
            &&& i < after.len()
            &&& entries.len() <= after.len() <= entries.len() + 1
            &&& after[i] == (YamlModel::String(key), value)
            &&& forall|j: int|
                0 <= j < entries.len() && j != i ==> #[trigger] after[j] == entries[j]
            &&& distinct_yaml_keys(entries) ==> distinct_yaml_keys(after)
        }),
{
    let after = with_yaml_entry(entries, key, value);
    let i = first_where(entries, is_key(key)) as int;
    lemma_first_where_holds(entries, is_key(key));
    if distinct_yaml_keys(entries) {
        assert forall|a: int, b: int| 0 <= a < b < after.len() implies !yaml_same(
            (#[trigger] after[a]).0,
            (#[trigger] after[b]).0,
        ) by {
            if a != i && b != i {
                assert(after[a] == entries[a]);
                assert(after[b] == entries[b]);
            } else if a == i {
                assert(after[b] == entries[b]);
                assert(entries[i].0 == YamlModel::String(key));
            } else {
                assert(after[a] == entries[a]);
                assert(!is_key(key)(entries[a]));
            }
        }
    }
}

/// Putting a valid value into a valid mapping gives a valid mapping.
pub proof fn lemma_with_yaml_entry_valid(
    entries: Seq<(YamlModel, YamlModel)>,
    key: Seq<char>,
    value: YamlModel,
)
    requires
        yaml_valid(YamlModel::Mapping(entries)),
        yaml_valid(value),
    ensures
        yaml_valid(YamlModel::Mapping(with_yaml_entry(entries, key, value))),
{
    lemma_with_yaml_entry(entries, key, value);
    let after = with_yaml_entry(entries, key, value);
    let i = first_where(entries, is_key(key)) as int;
    assert forall|j: int| 0 <= j < after.len() implies yaml_valid((#[trigger] after[j]).0)
        && yaml_valid(after[j].1) by {
        if j != i {
            assert(after[j] == entries[j]);
        }
    }
}

/// The value under the tags of a valid value is valid.
pub proof fn lemma_untagged_valid(value: YamlModel)
    requires
        yaml_valid(value),
    ensures
        yaml_valid(untagged(value)),
    decreases value,
{
    if let YamlModel::Tagged(_, inner) = value {
        lemma_untagged_valid(*inner);
    }
}

/// What is under the tags of a value, once other entries are in it.
pub proof fn lemma_with_mapping(value: YamlModel, entries: Seq<(YamlModel, YamlModel)>)
    ensures
        mapping_of(with_mapping(value, entries)) == Some(entries),
        yaml_valid(YamlModel::Mapping(entries)) ==> yaml_valid(with_mapping(value, entries)),
    decreases value,
{
    if let YamlModel::Tagged(_, inner) = value {
        lemma_with_mapping(*inner, entries);
    }
}

/// Of the entries that were put into a value the last ones count.
pub proof fn lemma_with_mapping_twice(
    value: YamlModel,
    first: Seq<(YamlModel, YamlModel)>,
    second: Seq<(YamlModel, YamlModel)>,
)
    ensures
        with_mapping(with_mapping(value, first), second) == with_mapping(value, second),
    decreases value,
{
    if let YamlModel::Tagged(_, inner) = value {
        lemma_with_mapping_twice(*inner, first, second);
    }
}

/// How many columns, and how many bytes, a character takes at most: in a tag,
/// where it may be escaped byte by byte, and in a text, where it may be escaped
/// as one.
pub open spec fn char_width(c: char, in_tag: bool) -> nat {
    if in_tag {
        if c <= '\u{7f}' {
            3
        } else {
            12
        }
    } else if ' ' <= c <= '~' && c != '\'' && c != '"' && c != '\\' {
        1
    } else {
        6
    }
}

/// How many columns, and how many bytes, characters take at most.
pub open spec fn width(s: Seq<char>, in_tag: bool) -> nat
    decreases s.len(),
{
    if s.len() == 0 {
        0
    } else {
        width(s.drop_last(), in_tag) + char_width(s.last(), in_tag)
    }
}

/// The first characters of a text take no more than all of them.
proof fn lemma_width(s: Seq<char>, n: int, in_tag: bool)
    requires
        0 <= n <= s.len(),
    ensures
        width(s.take(n), in_tag) <= width(s, in_tag),
    decreases s.len(),
{
    if n < s.len() {
        lemma_width(s.drop_last(), n, in_tag);
        assert(s.drop_last().take(n) =~= s.take(n));
    } else {
        assert(s.take(n) =~= s);
    }
}

/// What is counted for a value besides its texts: indentation, indicators,
/// quotes, and the digits of a number.
pub const NODE_WIDTH: u64 = 32;

/// How many columns, bytes and lines a value takes at most in YAML text.
pub open spec fn yaml_size(value: YamlModel) -> nat
    decreases value, 0nat,
{
    match value {
        YamlModel::String(s) => NODE_WIDTH as nat + width(s, false),
        YamlModel::Sequence(items) => NODE_WIDTH as nat + items_size(items, items.len()),
        YamlModel::Mapping(entries) => NODE_WIDTH as nat + entries_size(entries, entries.len()),
        YamlModel::Tagged(tag, inner) => NODE_WIDTH as nat + width(seq!['!'] + tag, true)
            + yaml_size(*inner),
        _ => NODE_WIDTH as nat,
    }
}

/// How much the first `n` elements take.
pub open spec fn items_size(items: Seq<YamlModel>, n: nat) -> nat
    decreases items, n,
{
    if 0 < n <= items.len() {
        items_size(items, (n - 1) as nat) + yaml_size(items[n - 1])
    } else {
        0
    }
}

/// How much the first `n` entries take.
pub open spec fn entries_size(entries: Seq<(YamlModel, YamlModel)>, n: nat) -> nat
    decreases entries, n,
{
    if 0 < n <= entries.len() {
        entries_size(entries, (n - 1) as nat) + yaml_size(entries[n - 1].0) + yaml_size(
            entries[n - 1].1,
        )
    } else {
        0
    }
}

/// A part of the elements takes no more than all of them.
proof fn lemma_items_size(items: Seq<YamlModel>, m: nat, n: nat)
    requires
        m <= n <= items.len(),
    ensures
        items_size(items, m) <= items_size(items, n),
    decreases n,
{
    if m < n {
        lemma_items_size(items, m, (n - 1) as nat);
    }
}

/// A part of the entries takes no more than all of them.
proof fn lemma_entries_size(entries: Seq<(YamlModel, YamlModel)>, m: nat, n: nat)
    requires
        m <= n <= entries.len(),
    ensures
        entries_size(entries, m) <= entries_size(entries, n),
    decreases n,
{
    if m < n {
        lemma_entries_size(entries, m, (n - 1) as nat);
    }
}

/// Calls `Tag::to_string`: an exclamation mark and the text of the tag.
#[verifier::external_body]
fn tag_to_string(tag: &serde_yaml::value::Tag) -> (r: String)
    ensures
        r@ == seq!['!'] + yaml_tag(*tag),
{
    tag.to_string()
}

/// What a budget leaves once the width of a text is spent, if it is enough.
fn spend_width(s: &str, in_tag: bool, budget: u64) -> (r: Option<u64>)
    ensures
        match r {
            Some(left) => width(s@, in_tag) <= budget && left == budget - width(s@, in_tag),
            None => width(s@, in_tag) > budget,
        },
{
    let mut left: u64 = budget;
    let ghost mut done: int = 0;
    for c in it: s.chars()
        invariant
            it.seq() == s@,
            done == it.index(),
            left + width(s@.take(done), in_tag) == budget,
    {
        let amount: u64 = if in_tag {
            if c <= '\u{7f}' {
                3
            } else {
                12
            }
        } else if ' ' <= c && c <= '~' && c != '\'' && c != '"' && c != '\\' {
            1
        } else {
            6
        };
        proof {
            assert(s@.take(done + 1).drop_last() =~= s@.take(done));
            lemma_width(s@, done + 1, in_tag);
            done = done + 1;
        }
        if left < amount {
            return None;
        }
        left = left - amount;
    }
    assert(s@.take(done) =~= s@);
    Some(left)
}

impl Yaml {
    /// What a budget leaves once the value's size is spent, if it is enough.
    pub fn spend_size(&self, budget: u64) -> (r: Option<u64>)
        ensures
            match r {
                Some(left) => yaml_size(self@) <= budget && left == budget - yaml_size(self@),
                None => yaml_size(self@) > budget,
            },
        decreases self@,
    {
        if budget < NODE_WIDTH {
            return None;
        }
        let mut left: u64 = budget - NODE_WIDTH;
        match self {
            Yaml::String(s) => spend_width(s.as_str(), false, left),
            Yaml::Sequence(items) => {
                proof {
                    lemma_sequence_model(*items);
                }
                let ghost all = sequence_model(items@);
                let mut i: usize = 0;
                while i < items.len()
                    invariant
                        i <= items@.len(),
                        all == sequence_model(items@),
                        self@ == YamlModel::Sequence(all),
                        left + NODE_WIDTH + items_size(all, i as nat) == budget,
                    decreases items@.len() - i,
                {
                    assert(self@->Sequence_0[i as int] == items@[i as int]@);
                    proof {
                        lemma_items_size(all, (i + 1) as nat, all.len());
                    }
                    left = match items[i].spend_size(left) {
                        Some(left) => left,
                        None => return None,
                    };
                    i = i + 1;
                }
                Some(left)
            },
            Yaml::Mapping(entries) => {
                proof {
                    lemma_mapping_model(*entries);
                }
                let ghost all = mapping_model(entries@);
                let mut i: usize = 0;
                while i < entries.len()
                    invariant
                        i <= entries@.len(),
                        all == mapping_model(entries@),
                        self@ == YamlModel::Mapping(all),
                        left + NODE_WIDTH + entries_size(all, i as nat) == budget,
                    decreases entries@.len() - i,
                {
                    assert(self@->Mapping_0[i as int].0 == entries@[i as int].0@);
                    assert(self@->Mapping_0[i as int].1 == entries@[i as int].1@);
                    proof {
                        lemma_entries_size(all, (i + 1) as nat, all.len());
                    }
                    left = match entries[i].0.spend_size(left) {
                        Some(left) => left,
                        None => return None,
                    };
                    left = match entries[i].1.spend_size(left) {
                        Some(left) => left,
                        None => return None,
                    };
                    i = i + 1;
                }
                Some(left)
            },
            Yaml::Tagged(tag, inner) => {
                assert(*self@->Tagged_1 == inner@);
                match spend_width(tag_to_string(tag).as_str(), true, left) {
                    Some(left) => inner.spend_size(left),
                    None => None,
                }
            },
            _ => Some(left),
        }
    }
}

impl Yaml {
    /// The value under all of its tags.
    pub fn untag(&self) -> (r: &Yaml)
        ensures
            r@ == untagged(self@),
            !(r is Tagged),
        decreases self@,
    {
        match self {
            Yaml::Tagged(_, inner) => inner.untag(),
            _ => self,
        }
    }

    /// Whether the value is null, tagged or not.
    pub fn is_null(&self) -> (r: bool)
        ensures
            r == (untagged(self@) == YamlModel::Null),
    {
        match self.untag() {
            Yaml::Null => true,
            _ => false,
        }
    }

    /// The text of a string, tagged or not.
    pub fn as_text(&self) -> (r: Option<&String>)
        ensures
            match r {
                Some(s) => untagged(self@) == YamlModel::String(s@),
                None => !(untagged(self@) is String),
            },
    {
        match self.untag() {
            Yaml::String(s) => Some(s),
            _ => None,
        }
    }

    /// The entries of a mapping, tagged or not.
    pub fn as_mapping(&self) -> (r: Option<&Vec<(Yaml, Yaml)>>)
        ensures
            match r {
                Some(entries) => mapping_of(self@) == Some(mapping_model(entries@)),
                None => mapping_of(self@) is None,
            },
    {
        match self.untag() {
            Yaml::Mapping(entries) => {
                proof {
                    lemma_mapping_model(*entries);
                }
                Some(entries)
            },
            _ => None,
        }
    }

    /// Takes the entries out of a mapping, tagged or not.
    pub fn into_mapping(self) -> (r: Option<Vec<(Yaml, Yaml)>>)
        ensures
            match r {
                Some(entries) => mapping_of(self@) == Some(mapping_model(entries@)),
                None => mapping_of(self@) is None,
            },
        decreases self@,
    {
        match self {
            Yaml::Tagged(_, inner) => (*inner).into_mapping(),
            Yaml::Mapping(entries) => {
                proof {
                    lemma_mapping_model(entries);
                }
                Some(entries)
            },
            _ => None,
        }
    }

    /// The entries of a mapping, tagged or not, to be changed in place.
    pub fn as_mapping_mut(&mut self) -> (r: Option<&mut Vec<(Yaml, Yaml)>>)
        ensures
            match r {
                Some(entries) => {
                    &&& mapping_of(old(self)@) == Some(mapping_model(entries@))
                    &&& final(self)@ == with_mapping(
                        old(self)@,
                        mapping_model(final(entries)@),
                    )
                },
                None => mapping_of(old(self)@) is None && *final(self) == *old(self),
            },
        decreases old(self)@,
    {
        match self {
            Yaml::Tagged(_, inner) => inner.as_mapping_mut(),
            Yaml::Mapping(entries) => {
                proof {
                    lemma_mapping_model(*entries);
                    lemma_mapping_model(*final(entries));
                }
                Some(entries)
            },
            _ => None,
        }
    }
}

/// Finds the first key that is the string `key`, tagged or not.
pub fn find_yaml_key(entries: &Vec<(Yaml, Yaml)>, key: &str) -> (r: Option<usize>)
    ensures
        match r {
            Some(i) => i == yaml_index(mapping_model(entries@), key@) && i < entries@.len(),
            None => yaml_index(mapping_model(entries@), key@) == entries@.len(),
        },
{
    let wanted: String = key.to_owned();
    let mut i: usize = 0;
    while i < entries.len()
        invariant
            wanted@ == key@,
            i <= entries@.len(),
            forall|j: int|
                0 <= j < i ==> !reads_as(key@)(#[trigger] mapping_model(entries@)[j]),
        decreases entries@.len() - i,
    {
        let found: bool = match entries[i].0.as_text() {
            Some(text) => *text == wanted,
            None => false,
        };
        assert(found == reads_as(key@)(mapping_model(entries@)[i as int]));
        if found {
            proof {
                lemma_first_where(mapping_model(entries@), reads_as(key@), i as int);
            }
            return Some(i);
        }
        i = i + 1;
    }
    proof {
        lemma_first_where(mapping_model(entries@), reads_as(key@), i as int);
    }
    None
}

/// The value under the first key that is the string `key`, tagged or not.
pub fn yaml_mapping_lookup<'a>(mapping: &'a Vec<(Yaml, Yaml)>, key: &str) -> (r: Option<&'a Yaml>)
    ensures
        match r {
            Some(value) => yaml_lookup(mapping_model(mapping@), key@) == Some(value@),
            None => yaml_lookup(mapping_model(mapping@), key@) is None,
        },
{
    match find_yaml_key(mapping, key) {
        Some(i) => Some(&mapping[i].1),
        None => None,
    }
}

/// The value under the first key that is the string `key`, tagged or not, to
/// be changed in place.
pub fn yaml_mapping_lookup_mut<'a>(mapping: &'a mut Vec<(Yaml, Yaml)>, key: &str) -> (r: Option<
    &'a mut Yaml,
>)
    ensures
        match r {
            Some(value) => {
                let before = mapping_model(old(mapping)@);
                let i = yaml_index(before, key@) as int;
                &&& yaml_lookup(before, key@) == Some(value@)
                &&& mapping_model(final(mapping)@) == before.update(
                    i,
                    (before[i].0, final(value)@),
                )
            },
            None => {
                &&& yaml_lookup(mapping_model(old(mapping)@), key@) is None
                &&& *final(mapping) == *old(mapping)
            },
        },
{
    match find_yaml_key(mapping, key) {
        Some(i) => {
            let entry = &mut mapping[i];
            Some(&mut entry.1)
        },
        None => None,
    }
}

/// Puts `value` under the string `key`: in its place if the key is there
/// untagged, and at the end otherwise.
pub fn set_yaml(entries: &mut Vec<(Yaml, Yaml)>, key: &str, value: Yaml)
    ensures
        mapping_model(final(entries)@) == with_yaml_entry(
            mapping_model(old(entries)@),
            key@,
            value@,
        ),
{
    let wanted: String = key.to_owned();
    let mut i: usize = 0;
    while i < entries.len()
        invariant
            *entries == *old(entries),
            wanted@ == key@,
            i <= entries@.len(),
            forall|j: int|
                0 <= j < i ==> !is_key(key@)(#[trigger] mapping_model(entries@)[j]),
        decreases entries@.len() - i,
    {
        let found: bool = match &entries[i].0 {
            Yaml::String(text) => *text == wanted,
            _ => false,
        };
        assert(found == is_key(key@)(mapping_model(entries@)[i as int]));
        if found {
            proof {
                lemma_first_where(mapping_model(entries@), is_key(key@), i as int);
            }
            entries.set(i, (Yaml::String(wanted), value));
            assert(mapping_model(entries@) =~= with_yaml_entry(
                mapping_model(old(entries)@),
                key@,
                value@,
            ));
            return ;
        }
        i = i + 1;
    }
    proof {
        lemma_first_where(mapping_model(entries@), is_key(key@), i as int);
    }
    entries.push((Yaml::String(wanted), value));
    assert(mapping_model(entries@) =~= with_yaml_entry(mapping_model(old(entries)@), key@, value@));
}

} // verus!
