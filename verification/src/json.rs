//! JSON values: what they hold, when two of them are equal, and how the
//! entries of an object are found, set and removed.

use vstd::prelude::*;

use crate::text::{first_where, lemma_first_where, lemma_first_where_holds};

verus! {

/// `serde_json`'s number, which the library carries along and never looks into.
#[verifier::external_type_specification]
#[verifier::external_body]
pub struct ExJsonNumber(serde_json::Number);

/// What a number holds: an integer, or the bits of an IEEE 754 double.
pub enum NumberModel {
    Integer(int),
    Double(u64),
}

/// What a JSON value holds. The entries of an object stand in their order.
pub enum JsonModel {
    Null,
    Bool(bool),
    Number(NumberModel),
    String(Seq<char>),
    Array(Seq<JsonModel>),
    Object(Seq<(Seq<char>, JsonModel)>),
}

/// A JSON value. An object lists its entries in order, each key once.
#[derive(Debug)]
pub enum Json {
    Null,
    Bool(bool),
    Number(serde_json::Number),
    String(String),
    Array(Vec<Json>),
    Object(Vec<(String, Json)>),
}

/// What a `serde_json` number holds: its value where it is an integer, and the
/// bits of its double otherwise, which is finite.
pub uninterp spec fn json_number(number: serde_json::Number) -> NumberModel;

/// What the elements of an array hold.
pub open spec fn items_model(items: Seq<Json>) -> Seq<JsonModel> {
    items.map_values(|item: Json| item@)
}

/// What the entries of an object hold.
pub open spec fn entries_model(entries: Seq<(String, Json)>) -> Seq<(Seq<char>, JsonModel)> {
    entries.map_values(|entry: (String, Json)| (entry.0@, entry.1@))
}

impl Json {
    /// What the value holds.
    pub open spec fn model(self) -> JsonModel
        decreases self,
    {
        match self {
            Json::Null => JsonModel::Null,
            Json::Bool(b) => JsonModel::Bool(b),
            Json::Number(n) => JsonModel::Number(json_number(n)),
            Json::String(s) => JsonModel::String(s@),
            Json::Array(items) => JsonModel::Array(
                Seq::new(
                    items@.len(),
                    |i: int|
                        if 0 <= i < items@.len() {
                            items@[i].model()
                        } else {
                            JsonModel::Null
                        },
                ),
            ),
            Json::Object(entries) => JsonModel::Object(
                Seq::new(
                    entries@.len(),
                    |i: int|
                        if 0 <= i < entries@.len() {
                            (entries@[i].0@, entries@[i].1.model())
                        } else {
                            (Seq::empty(), JsonModel::Null)
                        },
                ),
            ),
        }
    }
}

impl View for Json {
    type V = JsonModel;

    open spec fn view(&self) -> JsonModel {
        self.model()
    }
}

/// An array holds what its elements hold.
pub proof fn lemma_array_model(items: Vec<Json>)
    ensures
        Json::Array(items)@ == JsonModel::Array(items_model(items@)),
{
    assert(Json::Array(items)@->Array_0 =~= items_model(items@));
}

/// An object holds what its entries hold.
pub proof fn lemma_object_model(entries: Vec<(String, Json)>)
    ensures
        Json::Object(entries)@ == JsonModel::Object(entries_model(entries@)),
{
    assert(Json::Object(entries)@->Object_0 =~= entries_model(entries@));
}

/// No key stands twice.
pub open spec fn distinct_keys<V>(entries: Seq<(Seq<char>, V)>) -> bool {
    forall|i: int, j: int|
        0 <= i < j < entries.len() ==> (#[trigger] entries[i]).0 != (#[trigger] entries[j]).0
}

/// No object, at any depth, has a key twice.
pub open spec fn json_valid(value: JsonModel) -> bool
    decreases value,
{
    match value {
        JsonModel::Array(items) => forall|i: int|
            0 <= i < items.len() ==> json_valid(#[trigger] items[i]),
        JsonModel::Object(entries) => {
            &&& distinct_keys(entries)
            &&& forall|i: int| 0 <= i < entries.len() ==> json_valid((#[trigger] entries[i]).1)
        },
        _ => true,
    }
}

/// The test for an entry's key being `key`.
pub open spec fn has_key<V>(key: Seq<char>) -> spec_fn((Seq<char>, V)) -> bool {
    |entry: (Seq<char>, V)| entry.0 == key
}

/// Where `key` stands: an index, or the length if it stands nowhere.
pub open spec fn key_index<V>(entries: Seq<(Seq<char>, V)>, key: Seq<char>) -> nat {
    first_where(entries, has_key(key))
}

/// The value under `key`.
pub open spec fn lookup<V>(entries: Seq<(Seq<char>, V)>, key: Seq<char>) -> Option<V> {
    let i = key_index(entries, key) as int;
    if i < entries.len() {
        Some(entries[i].1)
    } else {
        None
    }
}

/// The entries with `value` under `key`: in its place if the key is there, and
/// at the end otherwise.
pub open spec fn with_entry<V>(
    entries: Seq<(Seq<char>, V)>,
    key: Seq<char>,
    value: V,
) -> Seq<(Seq<char>, V)> {
    let i = key_index(entries, key) as int;
    if i < entries.len() {
        entries.update(i, (key, value))
    } else {
        entries.push((key, value))
    }
}

/// The entries without `key`. The last entry takes the place of the one that
/// leaves.
pub open spec fn without_entry<V>(entries: Seq<(Seq<char>, V)>, key: Seq<char>) -> Seq<
    (Seq<char>, V),
> {
    let i = key_index(entries, key) as int;
    if i < entries.len() {
        entries.update(i, entries.last()).drop_last()
    } else {
        entries
    }
}

/// Putting a value under a key changes what stands under that key and nothing
/// else, and leaves no key twice.
pub proof fn lemma_with_entry<V>(entries: Seq<(Seq<char>, V)>, key: Seq<char>, value: V)
    ensures
        lookup(with_entry(entries, key, value), key) == Some(value),
        forall|other: Seq<char>|
            other != key ==> #[trigger] lookup(with_entry(entries, key, value), other) == lookup(
                entries,
                other,
            ),
        distinct_keys(entries) ==> distinct_keys(with_entry(entries, key, value)),
{
    let after = with_entry(entries, key, value);
    let k = key_index(entries, key) as int;
    lemma_first_where_holds(entries, has_key(key));
    assert forall|j: int| 0 <= j < k implies !has_key::<V>(key)(#[trigger] after[j]) by {
        assert(after[j] == entries[j]);
    }
    lemma_first_where(after, has_key(key), k);
    assert forall|other: Seq<char>| other != key implies #[trigger] lookup(after, other) == lookup(
        entries,
        other,
    ) by {
        let i = key_index(entries, other) as int;
        lemma_first_where_holds(entries, has_key(other));
        if i < entries.len() {
            assert forall|j: int| 0 <= j < i implies !has_key::<V>(other)(#[trigger] after[j]) by {
                if j != k {
                    assert(after[j] == entries[j]);
                }
            }
            lemma_first_where(after, has_key(other), i);
        } else {
            assert forall|j: int| 0 <= j < after.len() implies !has_key::<V>(other)(
                #[trigger] after[j],
            ) by {
                if j != k {
                    assert(after[j] == entries[j]);
                }
            }
            lemma_first_where(after, has_key(other), after.len() as int);
        }
    }
    if distinct_keys(entries) {
        assert forall|i: int, j: int| 0 <= i < j < after.len() implies (#[trigger] after[i]).0 != (
        #[trigger] after[j]).0 by {
            if i != k {
                assert(after[i] == entries[i]);
                assert(!has_key::<V>(key)(entries[i]) || i >= k);
            }
            if j != k {
                assert(after[j] == entries[j]);
            }
            if k < entries.len() {
                assert(entries[k].0 == key);
            }
        }
    }
}

/// Taking a key out changes what stands under that key and nothing else, where
/// no key stands twice.
pub proof fn lemma_without_entry<V>(entries: Seq<(Seq<char>, V)>, key: Seq<char>)
    requires
        distinct_keys(entries),
    ensures
        lookup(without_entry(entries, key), key) is None,
        forall|other: Seq<char>|
            other != key ==> #[trigger] lookup(without_entry(entries, key), other) == lookup(
                entries,
                other,
            ),
        distinct_keys(without_entry(entries, key)),
{
    let after = without_entry(entries, key);
    let k = key_index(entries, key) as int;
    lemma_first_where_holds(entries, has_key(key));
    if k < entries.len() {
        let n = entries.len() - 1;
        assert(entries[k].0 == key);
        assert forall|j: int| 0 <= j < after.len() implies (#[trigger] after[j]).0 != key by {
            if j == k {
                assert(after[j] == entries[n]);
            } else {
                assert(after[j] == entries[j]);
            }
        }
        assert forall|i: int, j: int| 0 <= i < j < after.len() implies (#[trigger] after[i]).0 != (
        #[trigger] after[j]).0 by {
            let a = if i == k {
                n
            } else {
                i
            };
            let b = if j == k {
                n
            } else {
                j
            };
            assert(after[i] == entries[a]);
            assert(after[j] == entries[b]);
        }
        assert forall|j: int| 0 <= j < after.len() implies !has_key::<V>(key)(
            #[trigger] after[j],
        ) by {}
        lemma_first_where(after, has_key(key), after.len() as int);
        assert forall|other: Seq<char>| other != key implies #[trigger] lookup(after, other)
            == lookup(entries, other) by {
            let i = key_index(entries, other) as int;
            lemma_first_where_holds(entries, has_key(other));
            let at = if i == entries.len() {
                after.len() as int
            } else if i == n {
                k
            } else {
                i
            };
            assert forall|j: int| 0 <= j < at implies !has_key::<V>(other)(#[trigger] after[j]) by {
                if j == k {
                    assert(after[j] == entries[n]);
                    if entries[n].0 == other {
                        assert(i == n) by {
                            if i < n {
                                assert(entries[i].0 == entries[n].0);
                            }
                        }
                    }
                } else {
                    assert(after[j] == entries[j]);
                    if entries[j].0 == other && i < entries.len() {
                        assert(entries[i].0 == other);
                        assert(i == j);
                    }
                }
            }
            lemma_first_where(after, has_key(other), at);
        }
    }
}

/// Every value is valid that comes out of putting a valid value into a valid
/// object.
pub proof fn lemma_with_entry_valid(
    entries: Seq<(Seq<char>, JsonModel)>,
    key: Seq<char>,
    value: JsonModel,
)
    requires
        json_valid(JsonModel::Object(entries)),
        json_valid(value),
    ensures
        json_valid(JsonModel::Object(with_entry(entries, key, value))),
{
    lemma_with_entry(entries, key, value);
    lemma_first_where_holds(entries, has_key(key));
    let after = with_entry(entries, key, value);
    assert forall|i: int| 0 <= i < after.len() implies json_valid((#[trigger] after[i]).1) by {
        if i != key_index(entries, key) {
            assert(after[i] == entries[i]);
        }
    }
}

/// Every value is valid that comes out of taking a key out of a valid object.
pub proof fn lemma_without_entry_valid(entries: Seq<(Seq<char>, JsonModel)>, key: Seq<char>)
    requires
        json_valid(JsonModel::Object(entries)),
    ensures
        json_valid(JsonModel::Object(without_entry(entries, key))),
{
    lemma_without_entry(entries, key);
    lemma_first_where_holds(entries, has_key(key));
    let after = without_entry(entries, key);
    let k = key_index(entries, key) as int;
    assert forall|i: int| 0 <= i < after.len() implies json_valid((#[trigger] after[i]).1) by {
        if k < entries.len() && i == k {
            assert(after[i] == entries[entries.len() - 1]);
        } else {
            assert(after[i] == entries[i]);
        }
    }
}

/// What stands under a key of a valid object is valid.
pub proof fn lemma_lookup_valid(entries: Seq<(Seq<char>, JsonModel)>, key: Seq<char>)
    requires
        json_valid(JsonModel::Object(entries)),
    ensures
        lookup(entries, key) matches Some(value) ==> json_valid(value),
{
    lemma_first_where_holds(entries, has_key(key));
}

/// Two numbers are equal if both are integers of one value, or both are
/// doubles that compare equal: of the same bits, or both zero.
pub open spec fn same_number(a: NumberModel, b: NumberModel) -> bool {
    match (a, b) {
        (NumberModel::Integer(x), NumberModel::Integer(y)) => x == y,
        (NumberModel::Double(x), NumberModel::Double(y)) => x == y || (zero_bits(x) && zero_bits(
            y,
        )),
        _ => false,
    }
}

/// The bits of zero and of minus zero.
pub open spec fn zero_bits(bits: u64) -> bool {
    bits == 0 || bits == 0x8000_0000_0000_0000
}

/// Two values are equal. The order of an object's entries does not count.
pub open spec fn json_same(a: JsonModel, b: JsonModel) -> bool
    decreases a,
{
    match (a, b) {
        (JsonModel::Null, JsonModel::Null) => true,
        (JsonModel::Bool(x), JsonModel::Bool(y)) => x == y,
        (JsonModel::Number(x), JsonModel::Number(y)) => same_number(x, y),
        (JsonModel::String(x), JsonModel::String(y)) => x == y,
        (JsonModel::Array(x), JsonModel::Array(y)) => {
            &&& x.len() == y.len()
            &&& forall|i: int| 0 <= i < x.len() ==> json_same(#[trigger] x[i], y[i])
        },
        (JsonModel::Object(x), JsonModel::Object(y)) => {
            &&& x.len() == y.len()
            &&& forall|i: int|
                0 <= i < x.len() ==> match lookup(y, (#[trigger] x[i]).0) {
                    Some(found) => json_same(x[i].1, found),
                    None => false,
                }
        },
        _ => false,
    }
}

/// Calls `==` on two `serde_json` numbers: integers are equal by value, doubles
/// as doubles are, and an integer never equals a double.
#[verifier::external_body]
fn numbers_equal(a: &serde_json::Number, b: &serde_json::Number) -> (r: bool)
    ensures
        r == same_number(json_number(*a), json_number(*b)),
{
    a == b
}

/// A clone of a `serde_json` number is that number.
pub assume_specification[ <serde_json::Number as Clone>::clone ](
    number: &serde_json::Number,
) -> (r: serde_json::Number)
    ensures
        r == *number,
;

/// Finds `key` among the entries of an object.
pub fn find_key(entries: &Vec<(String, Json)>, key: &str) -> (r: Option<usize>)
    ensures
        match r {
            Some(i) => i == key_index(entries_model(entries@), key@) && i < entries@.len(),
            None => key_index(entries_model(entries@), key@) == entries@.len(),
        },
{
    let wanted: String = key.to_owned();
    let mut i: usize = 0;
    while i < entries.len()
        invariant
            wanted@ == key@,
            i <= entries@.len(),
            forall|j: int|
                0 <= j < i ==> (#[trigger] entries_model(entries@)[j]).0 != key@,
        decreases entries@.len() - i,
    {
        if entries[i].0 == wanted {
            proof {
                lemma_first_where(entries_model(entries@), has_key(key@), i as int);
            }
            return Some(i);
        }
        i = i + 1;
    }
    proof {
        lemma_first_where(entries_model(entries@), has_key(key@), i as int);
    }
    None
}

/// The value under `key`.
pub fn get_entry<'a>(entries: &'a Vec<(String, Json)>, key: &str) -> (r: Option<&'a Json>)
    ensures
        match r {
            Some(value) => lookup(entries_model(entries@), key@) == Some(value@),
            None => lookup(entries_model(entries@), key@) is None,
        },
{
    match find_key(entries, key) {
        Some(i) => Some(&entries[i].1),
        None => None,
    }
}

/// Puts `value` under `key`: in its place if the key is there, and at the end
/// otherwise.
pub fn set_entry(entries: &mut Vec<(String, Json)>, key: &str, value: Json)
    ensures
        entries_model(final(entries)@) == with_entry(entries_model(old(entries)@), key@, value@),
{
    match find_key(entries, key) {
        Some(i) => {
            entries.set(i, (key.to_owned(), value));
        },
        None => {
            entries.push((key.to_owned(), value));
        },
    }
    assert(entries_model(entries@) =~= with_entry(entries_model(old(entries)@), key@, value@));
}

/// Takes `key` out. The last entry takes the place of the one that leaves.
pub fn remove_entry(entries: &mut Vec<(String, Json)>, key: &str)
    ensures
        entries_model(final(entries)@) == without_entry(entries_model(old(entries)@), key@),
{
    match find_key(entries, key) {
        Some(i) => {
            let _ = entries.swap_remove(i);
        },
        None => {},
    }
    assert(entries_model(entries@) =~= without_entry(entries_model(old(entries)@), key@));
}

impl Json {
    /// Whether the two values are equal, the order of an object's entries left
    /// aside.
    pub fn same(&self, other: &Json) -> (r: bool)
        ensures
            r == json_same(self@, other@),
        decreases self@,
    {
        match (self, other) {
            (Json::Null, Json::Null) => true,
            (Json::Bool(x), Json::Bool(y)) => *x == *y,
            (Json::Number(x), Json::Number(y)) => numbers_equal(x, y),
            (Json::String(x), Json::String(y)) => *x == *y,
            (Json::Array(x), Json::Array(y)) => {
                proof {
                    lemma_array_model(*x);
                    lemma_array_model(*y);
                }
                if x.len() != y.len() {
                    return false;
                }
                let mut i: usize = 0;
                while i < x.len()
                    invariant
                        i <= x@.len(),
                        x@.len() == y@.len(),
                        self@ == JsonModel::Array(items_model(x@)),
                        other@ == JsonModel::Array(items_model(y@)),
                        forall|j: int|
                            0 <= j < i ==> json_same(
                                #[trigger] items_model(x@)[j],
                                items_model(y@)[j],
                            ),
                    decreases x@.len() - i,
                {
                    assert(self@->Array_0[i as int] == x@[i as int]@);
                    if !x[i].same(&y[i]) {
                        return false;
                    }
                    i = i + 1;
                }
                true
            },
            (Json::Object(x), Json::Object(y)) => {
                proof {
                    lemma_object_model(*x);
                    lemma_object_model(*y);
                }
                if x.len() != y.len() {
                    return false;
                }
                let mut i: usize = 0;
                while i < x.len()
                    invariant
                        i <= x@.len(),
                        x@.len() == y@.len(),
                        self@ == JsonModel::Object(entries_model(x@)),
                        other@ == JsonModel::Object(entries_model(y@)),
                        forall|j: int|
                            0 <= j < i ==> match lookup(
                                entries_model(y@),
                                (#[trigger] entries_model(x@)[j]).0,
                            ) {
                                Some(found) => json_same(entries_model(x@)[j].1, found),
                                None => false,
                            },
                    decreases x@.len() - i,
                {
                    assert(self@->Object_0[i as int].1 == x@[i as int].1@);
                    let equal: bool = match get_entry(y, x[i].0.as_str()) {
                        Some(found) => x[i].1.same(found),
                        None => false,
                    };
                    if !equal {
                        return false;
                    }
                    i = i + 1;
                }
                true
            },
            _ => false,
        }
    }
}

impl Clone for Json {
    fn clone(&self) -> (r: Json)
        ensures
            r@ == self@,
        decreases self@,
    {
        match self {
            Json::Null => Json::Null,
            Json::Bool(b) => Json::Bool(*b),
            Json::Number(n) => Json::Number(n.clone()),
            Json::String(s) => Json::String(s.clone()),
            Json::Array(items) => {
                proof {
                    lemma_array_model(*items);
                }
                let mut copies: Vec<Json> = Vec::new();
                let mut i: usize = 0;
                while i < items.len()
                    invariant
                        i <= items@.len(),
                        copies@.len() == i,
                        self@ == JsonModel::Array(items_model(items@)),
                        forall|j: int| 0 <= j < i ==> (#[trigger] copies@[j])@ == items@[j]@,
                    decreases items@.len() - i,
                {
                    assert(self@->Array_0[i as int] == items@[i as int]@);
                    copies.push(items[i].clone());
                    i = i + 1;
                }
                proof {
                    lemma_array_model(copies);
                    assert(items_model(copies@) =~= items_model(items@));
                }
                Json::Array(copies)
            },
            Json::Object(entries) => {
                proof {
                    lemma_object_model(*entries);
                }
                let mut copies: Vec<(String, Json)> = Vec::new();
                let mut i: usize = 0;
                while i < entries.len()
                    invariant
                        i <= entries@.len(),
                        copies@.len() == i,
                        self@ == JsonModel::Object(entries_model(entries@)),
                        forall|j: int|
                            0 <= j < i ==> (#[trigger] copies@[j]).0@ == entries@[j].0@
                                && copies@[j].1@ == entries@[j].1@,
                    decreases entries@.len() - i,
                {
                    assert(self@->Object_0[i as int].1 == entries@[i as int].1@);
                    copies.push((entries[i].0.clone(), entries[i].1.clone()));
                    i = i + 1;
                }
                proof {
                    lemma_object_model(copies);
                    assert(entries_model(copies@) =~= entries_model(entries@));
                }
                Json::Object(copies)
            },
        }
    }
}

} // verus!
