//! What each change to the providers of `models.json` answers and writes, told by
//! the places at which the entries of the document stand.

use vstd::prelude::*;
use vstd::utf8::encode_utf8;

use crate::entry_laws::{
    law_last_entry_fills_the_gap, law_lookup_finds_nothing_else, law_lookup_finds_what_stands,
    law_new_value_is_put_at_the_end, law_value_is_put_in_place, lemma_stands_somewhere, stands_at,
    stands_nowhere,
};
use crate::error::ErrorModel;
use crate::files::json5_file;
use crate::json::{json_same, Json, JsonModel};
use crate::json_text::json_pretty;
use crate::models::{
    carried, insert_verdict, inserted, leads_to, models_document, native_providers, providers_of,
    remove_verdict, removed, replace_present_verdict, replace_verdict, replaced,
    replaced_if_present, restore_verdict, restored, revision_error, with_providers, ModelsWrite,
    Verdict,
};
use crate::revision::{revision_of, sha256_digest};
use crate::text::{lemma_encode_line_feed, white_space};
use crate::text_laws::law_only_white_space_trims_to_nothing;

verus! {

/// The document is an object, and these are the entries of the object under its
/// first key `providers`. Where there is no such key, there are no entries.
pub open spec fn holds_providers(
    document: JsonModel,
    entries: Seq<(Seq<char>, JsonModel)>,
) -> bool {
    &&& document is Object
    &&& {
        ||| stands_nowhere(document->Object_0, "providers"@) && entries.len() == 0
        ||| exists|i: int|
            {
                &&& #[trigger] stands_at(document->Object_0, "providers"@, i)
                &&& document->Object_0[i].1 == JsonModel::Object(entries)
            }
    }
}

/// The second document is the first one, but for the providers, which are these.
/// They stand where the providers stood, or behind everything else where there
/// were none.
pub open spec fn differs_in_providers(
    before: JsonModel,
    after: JsonModel,
    entries: Seq<(Seq<char>, JsonModel)>,
) -> bool {
    &&& before is Object
    &&& after is Object
    &&& {
        ||| {
            &&& stands_nowhere(before->Object_0, "providers"@)
            &&& after->Object_0 == before->Object_0.push(
                ("providers"@, JsonModel::Object(entries)),
            )
        }
        ||| exists|i: int|
            {
                &&& #[trigger] stands_at(before->Object_0, "providers"@, i)
                &&& after->Object_0 == before->Object_0.update(
                    i,
                    ("providers"@, JsonModel::Object(entries)),
                )
            }
    }
}

/// The providers that a document holds are those that are read out of it.
pub proof fn law_providers_are_read(
    document: JsonModel,
    path: Seq<char>,
    entries: Seq<(Seq<char>, JsonModel)>,
)
    requires
        holds_providers(document, entries),
    ensures
        providers_of(document, path) == Ok::<Seq<(Seq<char>, JsonModel)>, ErrorModel>(entries),
{
    let root = document->Object_0;
    if stands_nowhere(root, "providers"@) {
        law_lookup_finds_nothing_else(root, "providers"@);
        assert(entries =~= Seq::empty());
    } else {
        let i = choose|i: int|
            {
                &&& #[trigger] stands_at(root, "providers"@, i)
                &&& root[i].1 == JsonModel::Object(entries)
            };
        law_lookup_finds_what_stands(root, "providers"@, i);
    }
}

/// A document with other providers in it differs in the providers alone.
proof fn lemma_with_providers_differs(
    document: JsonModel,
    entries: Seq<(Seq<char>, JsonModel)>,
)
    requires
        document is Object,
    ensures
        differs_in_providers(document, with_providers(document, entries), entries),
{
    let root = document->Object_0;
    let value = JsonModel::Object(entries);
    lemma_stands_somewhere(root, "providers"@);
    if stands_nowhere(root, "providers"@) {
        law_new_value_is_put_at_the_end(root, "providers"@, value);
    } else {
        let i = choose|i: int| stands_at(root, "providers"@, i);
        law_value_is_put_in_place(root, "providers"@, value, i);
        assert(stands_at(root, "providers"@, i));
    }
}

/// A document that differs from another in its providers alone holds those
/// providers; every entry before and behind them is what it was, where it was.
pub proof fn law_document_holds_its_new_providers(
    before: JsonModel,
    after: JsonModel,
    entries: Seq<(Seq<char>, JsonModel)>,
)
    requires
        differs_in_providers(before, after, entries),
    ensures
        holds_providers(after, entries),
        forall|i: int|
            0 <= i < before->Object_0.len() && before->Object_0[i].0 != "providers"@
                ==> #[trigger] after->Object_0[i] == before->Object_0[i],
        forall|i: int|
            before->Object_0.len() <= i < after->Object_0.len() ==> (
            #[trigger] after->Object_0[i]).0 == "providers"@,
        before->Object_0.len() <= after->Object_0.len() <= before->Object_0.len() + 1,
{
    let (root, new) = (before->Object_0, after->Object_0);
    if stands_nowhere(root, "providers"@) && new == root.push(
        ("providers"@, JsonModel::Object(entries)),
    ) {
        let i = root.len() as int;
        assert forall|j: int| 0 <= j < i implies (#[trigger] new[j]).0 != "providers"@ by {
            assert(new[j] == root[j]);
        }
        assert(stands_at(new, "providers"@, i));
    } else {
        let i = choose|i: int|
            {
                &&& #[trigger] stands_at(root, "providers"@, i)
                &&& new == root.update(i, ("providers"@, JsonModel::Object(entries)))
            };
        assert forall|j: int| 0 <= j < i implies (#[trigger] new[j]).0 != "providers"@ by {
            assert(new[j] == root[j]);
        }
        assert(stands_at(new, "providers"@, i));
    }
}

/// Where the document is not an object, or what stands under its first key
/// `providers` is none, every change is refused, in the same words as reading is,
/// and so nothing is written.
pub proof fn law_document_without_object_is_left_alone(
    document: JsonModel,
    path: Seq<char>,
    provider_key: Seq<char>,
    config: JsonModel,
    expected: Option<JsonModel>,
    i: int,
)
    requires
        document matches JsonModel::Object(root) ==> stands_at(root, "providers"@, i)
            && !(root[i].1 is Object),
    ensures
        ({
            let error = ErrorModel::Config(
                if document is Object {
                    "OMP models 'providers' must be an object: "@ + path
                } else {
                    "OMP models root must be an object: "@ + path
                },
            );
            &&& providers_of(document, path) == Err::<Seq<(Seq<char>, JsonModel)>, ErrorModel>(
                error,
            )
            &&& insert_verdict(document, path, provider_key, config) == Err::<
                Verdict<bool>,
                ErrorModel,
            >(error)
            &&& replace_verdict(document, path, provider_key, expected->0, config) == Err::<
                Verdict<()>,
                ErrorModel,
            >(error)
            &&& replace_present_verdict(document, path, provider_key, config) == Err::<
                Verdict<Option<JsonModel>>,
                ErrorModel,
            >(error)
            &&& remove_verdict(document, path, provider_key, expected) == Err::<
                Verdict<Option<JsonModel>>,
                ErrorModel,
            >(error)
            &&& restore_verdict(document, path, provider_key, config) == Err::<
                Verdict<()>,
                ErrorModel,
            >(error)
        }),
{
    if let JsonModel::Object(root) = document {
        law_lookup_finds_what_stands(root, "providers"@, i);
    }
}

/// Inserting under a key that no provider has succeeds, answers that the node is
/// new, and writes the document with the node behind all other providers and with
/// nothing else changed.
pub proof fn law_insertion_under_a_free_key(
    document: JsonModel,
    path: Seq<char>,
    provider_key: Seq<char>,
    config: JsonModel,
    entries: Seq<(Seq<char>, JsonModel)>,
)
    requires
        holds_providers(document, entries),
        stands_nowhere(entries, provider_key),
    ensures
        ({
            &&& insert_verdict(document, path, provider_key, config) matches Ok(verdict)
            &&& verdict.outcome
            &&& verdict.document matches Some(after)
            &&& differs_in_providers(document, after, entries.push((provider_key, config)))
        }),
{
    law_providers_are_read(document, path, entries);
    law_lookup_finds_nothing_else(entries, provider_key);
    law_new_value_is_put_at_the_end(entries, provider_key, config);
    lemma_with_providers_differs(document, entries.push((provider_key, config)));
}

/// Inserting under a key that a provider has, at whatever place, writes nothing.
/// It is refused as invalid input, unless the node that stands there is the same:
/// then the answer is that the node is not new.
pub proof fn law_insertion_under_a_taken_key(
    document: JsonModel,
    path: Seq<char>,
    provider_key: Seq<char>,
    config: JsonModel,
    entries: Seq<(Seq<char>, JsonModel)>,
    i: int,
)
    requires
        holds_providers(document, entries),
        stands_at(entries, provider_key, i),
    ensures
        !json_same(entries[i].1, config) ==> insert_verdict(document, path, provider_key, config)
            == Err::<Verdict<bool>, ErrorModel>(
            ErrorModel::InvalidInput(
                "OMP provider key '"@ + provider_key + "' already exists in models.json"@,
            ),
        ),
        json_same(entries[i].1, config) ==> insert_verdict(document, path, provider_key, config)
            == Ok::<Verdict<bool>, ErrorModel>(Verdict { outcome: false, document: None }),
{
    law_providers_are_read(document, path, entries);
    law_lookup_finds_what_stands(entries, provider_key, i);
}

/// Something is written for an insertion exactly if the answer is that the node is
/// new. Whenever it is not, nothing is written.
pub proof fn law_insertion_writes_what_is_new(
    document: JsonModel,
    path: Seq<char>,
    provider_key: Seq<char>,
    config: JsonModel,
)
    ensures
        insert_verdict(document, path, provider_key, config) matches Ok(verdict) ==> (
        verdict.outcome <==> verdict.document is Some),
{
}

/// Replacing a node that is the same as the expected one and not the same as the
/// replacement succeeds, and writes the document with the replacement under the
/// key, at the place where the node stood, and with nothing else changed.
pub proof fn law_expected_node_is_replaced(
    document: JsonModel,
    path: Seq<char>,
    provider_key: Seq<char>,
    expected: JsonModel,
    replacement: JsonModel,
    entries: Seq<(Seq<char>, JsonModel)>,
    i: int,
)
    requires
        holds_providers(document, entries),
        stands_at(entries, provider_key, i),
        json_same(entries[i].1, expected),
        !json_same(entries[i].1, replacement),
    ensures
        ({
            &&& replace_verdict(document, path, provider_key, expected, replacement) matches Ok(
                verdict,
            )
            &&& verdict.document matches Some(after)
            &&& differs_in_providers(
                document,
                after,
                entries.update(i, (provider_key, replacement)),
            )
        }),
{
    law_providers_are_read(document, path, entries);
    law_lookup_finds_what_stands(entries, provider_key, i);
    law_value_is_put_in_place(entries, provider_key, replacement, i);
    lemma_with_providers_differs(document, entries.update(i, (provider_key, replacement)));
}

/// After a replacement the key has the replacement, and every other provider and
/// every other key of the document has the value that it had.
pub proof fn law_replacement_is_found(
    document: JsonModel,
    path: Seq<char>,
    provider_key: Seq<char>,
    expected: JsonModel,
    replacement: JsonModel,
    entries: Seq<(Seq<char>, JsonModel)>,
    i: int,
    j: int,
)
    requires
        holds_providers(document, entries),
        stands_at(entries, provider_key, i),
        json_same(entries[i].1, expected),
        !json_same(entries[i].1, replacement),
        0 <= j < entries.len(),
    ensures
        ({
            &&& replace_verdict(document, path, provider_key, expected, replacement) matches Ok(
                verdict,
            )
            &&& verdict.document matches Some(after)
            &&& providers_of(after, path) matches Ok(now)
            &&& now.len() == entries.len()
            &&& now[i] == (provider_key, replacement)
            &&& j != i ==> now[j] == entries[j]
            &&& forall|k: int|
                0 <= k < document->Object_0.len() && document->Object_0[k].0 != "providers"@
                    ==> #[trigger] after->Object_0[k] == document->Object_0[k]
        }),
{
    law_expected_node_is_replaced(
        document,
        path,
        provider_key,
        expected,
        replacement,
        entries,
        i,
    );
    let after = replace_verdict(
        document,
        path,
        provider_key,
        expected,
        replacement,
    )->Ok_0.document->0;
    let now = entries.update(i, (provider_key, replacement));
    law_document_holds_its_new_providers(document, after, now);
    law_providers_are_read(after, path, now);
}

/// Replacing a node that is the same as the expected one and as the replacement
/// succeeds and writes nothing. A node that is not the expected one is a conflict,
/// even where it is the replacement already, and so is one that is gone.
pub proof fn law_replacement_that_writes_nothing(
    document: JsonModel,
    path: Seq<char>,
    provider_key: Seq<char>,
    expected: JsonModel,
    replacement: JsonModel,
    entries: Seq<(Seq<char>, JsonModel)>,
    i: int,
)
    requires
        holds_providers(document, entries),
        stands_at(entries, provider_key, i) || stands_nowhere(entries, provider_key),
    ensures
        stands_nowhere(entries, provider_key) ==> replace_verdict(
            document,
            path,
            provider_key,
            expected,
            replacement,
        ) == Err::<Verdict<()>, ErrorModel>(
            ErrorModel::Conflict(
                "OMP provider '"@ + provider_key + "' is no longer present in models.json"@,
            ),
        ),
        stands_at(entries, provider_key, i) && !json_same(entries[i].1, expected)
            ==> replace_verdict(document, path, provider_key, expected, replacement) == Err::<
            Verdict<()>,
            ErrorModel,
        >(
            ErrorModel::Conflict("OMP provider '"@ + provider_key + "' changed outside CC Switch"@),
        ),
        stands_at(entries, provider_key, i) && json_same(entries[i].1, expected) && json_same(
            entries[i].1,
            replacement,
        ) ==> replace_verdict(document, path, provider_key, expected, replacement) == Ok::<
            Verdict<()>,
            ErrorModel,
        >(Verdict { outcome: (), document: None }),
{
    law_providers_are_read(document, path, entries);
    if stands_at(entries, provider_key, i) {
        law_lookup_finds_what_stands(entries, provider_key, i);
    } else {
        law_lookup_finds_nothing_else(entries, provider_key);
    }
}

/// Replacing a node, whatever it is, that is not the same as the replacement
/// answers that node, and writes the document with the replacement under the key,
/// at the place where the node stood, and with nothing else changed.
pub proof fn law_present_node_is_replaced(
    document: JsonModel,
    path: Seq<char>,
    provider_key: Seq<char>,
    replacement: JsonModel,
    entries: Seq<(Seq<char>, JsonModel)>,
    i: int,
)
    requires
        holds_providers(document, entries),
        stands_at(entries, provider_key, i),
        !json_same(entries[i].1, replacement),
    ensures
        ({
            &&& replace_present_verdict(document, path, provider_key, replacement) matches Ok(
                verdict,
            )
            &&& verdict.outcome == Some(entries[i].1)
            &&& verdict.document matches Some(after)
            &&& differs_in_providers(
                document,
                after,
                entries.update(i, (provider_key, replacement)),
            )
        }),
{
    law_providers_are_read(document, path, entries);
    law_lookup_finds_what_stands(entries, provider_key, i);
    law_value_is_put_in_place(entries, provider_key, replacement, i);
    lemma_with_providers_differs(document, entries.update(i, (provider_key, replacement)));
}

/// Replacing a node by one that is the same answers that node and writes nothing;
/// where there is no node the answer is that, and nothing is written.
pub proof fn law_absent_node_is_not_replaced(
    document: JsonModel,
    path: Seq<char>,
    provider_key: Seq<char>,
    replacement: JsonModel,
    entries: Seq<(Seq<char>, JsonModel)>,
    i: int,
)
    requires
        holds_providers(document, entries),
        stands_at(entries, provider_key, i) || stands_nowhere(entries, provider_key),
    ensures
        stands_nowhere(entries, provider_key) ==> replace_present_verdict(
            document,
            path,
            provider_key,
            replacement,
        ) == Ok::<Verdict<Option<JsonModel>>, ErrorModel>(
            Verdict { outcome: None, document: None },
        ),
        stands_at(entries, provider_key, i) && json_same(entries[i].1, replacement)
            ==> replace_present_verdict(document, path, provider_key, replacement) == Ok::<
            Verdict<Option<JsonModel>>,
            ErrorModel,
        >(Verdict { outcome: Some(entries[i].1), document: None }),
{
    law_providers_are_read(document, path, entries);
    if stands_at(entries, provider_key, i) {
        law_lookup_finds_what_stands(entries, provider_key, i);
    } else {
        law_lookup_finds_nothing_else(entries, provider_key);
    }
}

/// Replacing a node that is the expected one, and replacing it whatever it is,
/// write the same document.
pub proof fn law_both_replacements_write_the_same(
    document: JsonModel,
    path: Seq<char>,
    provider_key: Seq<char>,
    expected: JsonModel,
    replacement: JsonModel,
)
    requires
        replace_verdict(document, path, provider_key, expected, replacement) is Ok,
    ensures
        ({
            &&& replace_present_verdict(document, path, provider_key, replacement) matches Ok(
                verdict,
            )
            &&& verdict.outcome matches Some(node)
            &&& json_same(node, expected)
            &&& verdict.document == replace_verdict(
                document,
                path,
                provider_key,
                expected,
                replacement,
            )->Ok_0.document
        }),
{
}

/// The providers without the one at place `i`: the last one comes into its place.
pub open spec fn providers_without(
    entries: Seq<(Seq<char>, JsonModel)>,
    i: int,
) -> Seq<(Seq<char>, JsonModel)> {
    Seq::new(
        (entries.len() - 1) as nat,
        |j: int|
            if j == i {
                entries[entries.len() - 1]
            } else {
                entries[j]
            },
    )
}

/// Taking out a node, if it is the expected one where one is expected, answers
/// that node and writes the document without it: the last provider comes into its
/// place, and nothing else is changed.
pub proof fn law_node_is_taken_out(
    document: JsonModel,
    path: Seq<char>,
    provider_key: Seq<char>,
    expected: Option<JsonModel>,
    entries: Seq<(Seq<char>, JsonModel)>,
    i: int,
)
    requires
        holds_providers(document, entries),
        stands_at(entries, provider_key, i),
        expected matches Some(node) ==> json_same(entries[i].1, node),
    ensures
        ({
            &&& remove_verdict(document, path, provider_key, expected) matches Ok(verdict)
            &&& verdict.outcome == Some(entries[i].1)
            &&& verdict.document matches Some(after)
            &&& differs_in_providers(document, after, providers_without(entries, i))
        }),
{
    let left = providers_without(entries, i);
    law_providers_are_read(document, path, entries);
    law_lookup_finds_what_stands(entries, provider_key, i);
    law_last_entry_fills_the_gap(entries, provider_key, i);
    assert(crate::json::without_entry(entries, provider_key) =~= left);
    lemma_with_providers_differs(document, left);
}

/// Where there is no node nothing is taken out, whatever is expected, and nothing
/// is written. A node that is not the expected one is a conflict.
pub proof fn law_removal_that_writes_nothing(
    document: JsonModel,
    path: Seq<char>,
    provider_key: Seq<char>,
    expected: Option<JsonModel>,
    entries: Seq<(Seq<char>, JsonModel)>,
    i: int,
)
    requires
        holds_providers(document, entries),
        stands_at(entries, provider_key, i) || stands_nowhere(entries, provider_key),
    ensures
        stands_nowhere(entries, provider_key) ==> remove_verdict(
            document,
            path,
            provider_key,
            expected,
        ) == Ok::<Verdict<Option<JsonModel>>, ErrorModel>(
            Verdict { outcome: None, document: None },
        ),
        stands_at(entries, provider_key, i) ==> (expected matches Some(node) ==> !json_same(
            entries[i].1,
            node,
        ) ==> remove_verdict(document, path, provider_key, expected) == Err::<
            Verdict<Option<JsonModel>>,
            ErrorModel,
        >(
            ErrorModel::Conflict("OMP provider '"@ + provider_key + "' changed outside CC Switch"@),
        )),
{
    law_providers_are_read(document, path, entries);
    if stands_at(entries, provider_key, i) {
        law_lookup_finds_what_stands(entries, provider_key, i);
    } else {
        law_lookup_finds_nothing_else(entries, provider_key);
    }
}

/// Putting a node back under a key that no provider has succeeds, and writes the
/// document with the node behind all other providers and with nothing else
/// changed.
pub proof fn law_restoring_under_a_free_key(
    document: JsonModel,
    path: Seq<char>,
    provider_key: Seq<char>,
    config: JsonModel,
    entries: Seq<(Seq<char>, JsonModel)>,
)
    requires
        holds_providers(document, entries),
        stands_nowhere(entries, provider_key),
    ensures
        ({
            &&& restore_verdict(document, path, provider_key, config) matches Ok(verdict)
            &&& verdict.document matches Some(after)
            &&& differs_in_providers(document, after, entries.push((provider_key, config)))
        }),
{
    law_providers_are_read(document, path, entries);
    law_lookup_finds_nothing_else(entries, provider_key);
    law_new_value_is_put_at_the_end(entries, provider_key, config);
    lemma_with_providers_differs(document, entries.push((provider_key, config)));
}

/// Putting a node back under a key that a provider has, at whatever place, writes
/// nothing. It is a conflict, unless the node that stands there is the same.
pub proof fn law_restoring_under_a_taken_key(
    document: JsonModel,
    path: Seq<char>,
    provider_key: Seq<char>,
    config: JsonModel,
    entries: Seq<(Seq<char>, JsonModel)>,
    i: int,
)
    requires
        holds_providers(document, entries),
        stands_at(entries, provider_key, i),
    ensures
        !json_same(entries[i].1, config) ==> restore_verdict(document, path, provider_key, config)
            == Err::<Verdict<()>, ErrorModel>(
            ErrorModel::Conflict(
                "cannot restore OMP provider '"@ + provider_key
                    + "' because another value now owns the key"@,
            ),
        ),
        json_same(entries[i].1, config) ==> restore_verdict(document, path, provider_key, config)
            == Ok::<Verdict<()>, ErrorModel>(Verdict { outcome: (), document: None }),
{
    law_providers_are_read(document, path, entries);
    law_lookup_finds_what_stands(entries, provider_key, i);
}

/// Where there is no file, the document has no providers and the revision says
/// that there is none. Any key may be inserted, nothing is taken out, and the
/// document that is written holds the one node.
pub proof fn law_missing_file_has_no_providers(
    path: Seq<char>,
    provider_key: Seq<char>,
    config: JsonModel,
    expected: Option<JsonModel>,
)
    ensures
        models_document(None, path) == Ok::<(JsonModel, Seq<char>), ErrorModel>(
            (JsonModel::Object(seq![]), "missing"@),
        ),
        native_providers(None, path) == Ok::<Seq<(Seq<char>, JsonModel)>, ErrorModel>(seq![]),
        removed(None, path, provider_key, expected) == Ok::<
            (Verdict<Option<JsonModel>>, Seq<char>),
            ErrorModel,
        >((Verdict { outcome: None, document: None }, "missing"@)),
        restored(None, path, provider_key, config) == Ok::<(Verdict<()>, Seq<char>), ErrorModel>(
            (
                Verdict {
                    outcome: (),
                    document: Some(
                        JsonModel::Object(
                            seq![("providers"@, JsonModel::Object(seq![(provider_key, config)]))],
                        ),
                    ),
                },
                "missing"@,
            ),
        ),
{
    let document = JsonModel::Object(seq![]);
    let none = Seq::<(Seq<char>, JsonModel)>::empty();
    let one = seq![(provider_key, config)];
    law_lookup_finds_nothing_else(none, "providers"@);
    law_lookup_finds_nothing_else(none, provider_key);
    law_restoring_under_a_free_key(document, path, provider_key, config, none);
    assert(none.push((provider_key, config)) =~= one);
    let after = restore_verdict(document, path, provider_key, config)->Ok_0.document->0;
    assert(after->Object_0 =~= seq![("providers"@, JsonModel::Object(one))]);
}

/// What is in a file is its JSON5 value, and its revision is the digest of its
/// bytes. Where there is no such value, reading and every change that looks at the
/// file fail in the same words.
pub proof fn law_file_is_its_value(
    bytes: Seq<u8>,
    path: Seq<char>,
    provider_key: Seq<char>,
    config: JsonModel,
    expected: Option<JsonModel>,
)
    ensures
        match json5_file(bytes, "OMP models"@, path) {
            Ok(value) => models_document(Some(bytes), path) == Ok::<
                (JsonModel, Seq<char>),
                ErrorModel,
            >((value, revision_of(bytes))) && native_providers(Some(bytes), path) == providers_of(
                value,
                path,
            ),
            Err(error) => {
                &&& models_document(Some(bytes), path) == Err::<
                    (JsonModel, Seq<char>),
                    ErrorModel,
                >(error)
                &&& native_providers(Some(bytes), path) == Err::<
                    Seq<(Seq<char>, JsonModel)>,
                    ErrorModel,
                >(error)
                &&& removed(Some(bytes), path, provider_key, expected) == Err::<
                    (Verdict<Option<JsonModel>>, Seq<char>),
                    ErrorModel,
                >(error)
                &&& restored(Some(bytes), path, provider_key, config) == Err::<
                    (Verdict<()>, Seq<char>),
                    ErrorModel,
                >(error)
            },
        },
{
}

/// A node is refused, before the file is looked at, if its key is white space
/// alone or if it is not an object, and so is a replacement. Otherwise the file
/// decides.
pub proof fn law_node_is_looked_at_first(
    file: Option<Seq<u8>>,
    path: Seq<char>,
    provider_key: Seq<char>,
    config: JsonModel,
    expected: JsonModel,
)
    ensures
        ({
            let blank = forall|i: int|
                0 <= i < provider_key.len() ==> white_space(#[trigger] provider_key[i]);
            let error = ErrorModel::InvalidInput(
                if blank {
                    "OMP provider key cannot be empty"@
                } else {
                    "OMP provider configuration must be an object"@
                },
            );
            if blank || !(config is Object) {
                &&& inserted(file, path, provider_key, config) == Err::<
                    (Verdict<bool>, Seq<char>),
                    ErrorModel,
                >(error)
                &&& replaced(file, path, provider_key, expected, config) == Err::<
                    (Verdict<()>, Seq<char>),
                    ErrorModel,
                >(error)
                &&& replaced_if_present(file, path, provider_key, config) == Err::<
                    (Verdict<Option<JsonModel>>, Seq<char>),
                    ErrorModel,
                >(error)
            } else {
                match models_document(file, path) {
                    Err(error) => {
                        &&& inserted(file, path, provider_key, config) == Err::<
                            (Verdict<bool>, Seq<char>),
                            ErrorModel,
                        >(error)
                        &&& replaced(file, path, provider_key, expected, config) == Err::<
                            (Verdict<()>, Seq<char>),
                            ErrorModel,
                        >(error)
                        &&& replaced_if_present(file, path, provider_key, config) == Err::<
                            (Verdict<Option<JsonModel>>, Seq<char>),
                            ErrorModel,
                        >(error)
                    },
                    Ok((document, revision)) => {
                        &&& same_answer(
                            inserted(file, path, provider_key, config),
                            insert_verdict(document, path, provider_key, config),
                            revision,
                        )
                        &&& same_answer(
                            replaced(file, path, provider_key, expected, config),
                            replace_verdict(document, path, provider_key, expected, config),
                            revision,
                        )
                        &&& same_answer(
                            replaced_if_present(file, path, provider_key, config),
                            replace_present_verdict(document, path, provider_key, config),
                            revision,
                        )
                    },
                }
            }
        }),
{
    law_only_white_space_trims_to_nothing(provider_key);
}

/// The answer for a file is the answer for its document, and what is written is
/// written over that revision.
pub open spec fn same_answer<T>(
    for_file: Result<(Verdict<T>, Seq<char>), ErrorModel>,
    for_document: Result<Verdict<T>, ErrorModel>,
    revision: Seq<char>,
) -> bool {
    match (for_file, for_document) {
        (Ok((verdict, over)), Ok(decided)) => verdict == decided && over == revision,
        (Err(error), Err(e)) => error == e,
        _ => false,
    }
}

/// Taking a node out of a file and putting it back look at no node but those in
/// the file: the answer is that for the document, whatever the key and the node.
pub proof fn law_removal_and_restoring_take_any_node(
    file: Option<Seq<u8>>,
    path: Seq<char>,
    provider_key: Seq<char>,
    config: JsonModel,
    expected: Option<JsonModel>,
    document: JsonModel,
    revision: Seq<char>,
)
    requires
        models_document(file, path) == Ok::<(JsonModel, Seq<char>), ErrorModel>(
            (document, revision),
        ),
    ensures
        same_answer(
            removed(file, path, provider_key, expected),
            remove_verdict(document, path, provider_key, expected),
            revision,
        ),
        same_answer(
            restored(file, path, provider_key, config),
            restore_verdict(document, path, provider_key, config),
            revision,
        ),
{
}

/// What is written for a document is its indented text and a line feed, over the
/// revision. Something is written exactly if there is a document to write.
pub proof fn law_write_is_the_text_of_the_document(
    write: Option<ModelsWrite>,
    document: Option<JsonModel>,
    revision: Seq<char>,
)
    requires
        carried(write, document, revision),
    ensures
        write is Some <==> document is Some,
        write matches Some(write) ==> {
            &&& write.bytes@ == encode_utf8(json_pretty(document->0)).push(0x0a)
            &&& write.expected_revision@ == revision
        },
{
    if let Some(document) = document {
        lemma_encode_line_feed(json_pretty(document));
    }
}

/// A decision leads to a document exactly if the verdict does, and to that one.
pub proof fn law_decision_leads_where_the_verdict_does(
    document: Option<Json>,
    model: Option<JsonModel>,
)
    ensures
        leads_to(document, model) ==> (document is Some <==> model is Some),
        leads_to(document, model) && document is Some ==> document->0@ == model->0,
{
}

/// A file may be written over a revision exactly if it has it: a missing file has
/// the word for that, and a file within the limit the digest of its bytes in
/// hexadecimal digits. It is a conflict otherwise; a file above the limit may not
/// be written at all.
pub proof fn law_file_may_be_written_over_its_revision_alone(
    file: Option<Seq<u8>>,
    path: Seq<char>,
    revision: Seq<char>,
)
    ensures
        revision_error(file, path, revision) == match file {
            Some(bytes) => if bytes.len() > 1_048_576 {
                Some(
                    ErrorModel::InvalidInput(
                        "OMP models"@ + " file exceeds the 1 MiB limit: "@ + path,
                    ),
                )
            } else if revision == crate::revision::hex(sha256_digest(bytes)) {
                None
            } else {
                Some(ErrorModel::Conflict("OMP models.json changed outside CC Switch: "@ + path))
            },
            None => if revision == "missing"@ {
                None
            } else {
                Some(ErrorModel::Conflict("OMP models.json changed outside CC Switch: "@ + path))
            },
        },
{
}

} // verus!
