//! What holds of every change to the providers of `models.json`.

use vstd::prelude::*;

use crate::error::ErrorModel;
use crate::files::MAX_OMP_FILE_BYTES;
use crate::json::{
    has_key, json_same, json_valid, key_index, lemma_with_entry,
    lemma_without_entry, lookup, with_entry, without_entry, JsonModel,
};
use crate::json_text::{json5_safe, json5_text};
use crate::models::{
    changed_outside, insert_verdict, key_taken, lemma_providers_valid,
    models_document, native_providers, providers_of, remove_verdict,
    replace_present_verdict, replace_verdict, restore_verdict, revision_error, with_providers,
    ModelsWrite, Verdict,
};
use crate::revision::{lemma_hex_length, revision_of, sha256_digest};
use crate::text::{lemma_first_where, lemma_first_where_holds};

verus! {

/// Every valid value is equal to itself.
pub proof fn law_equality_is_reflexive(value: JsonModel)
    requires
        json_valid(value),
    ensures
        json_same(value, value),
    decreases value,
{
    match value {
        JsonModel::Array(items) => {
            assert forall|i: int| 0 <= i < items.len() implies json_same(
                #[trigger] items[i],
                items[i],
            ) by {
                law_equality_is_reflexive(items[i]);
            }
        },
        JsonModel::Object(entries) => {
            assert forall|i: int| 0 <= i < entries.len() implies match lookup(
                entries,
                (#[trigger] entries[i]).0,
            ) {
                Some(found) => json_same(entries[i].1, found),
                None => false,
            } by {
                assert forall|j: int| 0 <= j < i implies !has_key::<JsonModel>(entries[i].0)(
                    #[trigger] entries[j],
                ) by {}
                lemma_first_where(entries, has_key(entries[i].0), i);
                law_equality_is_reflexive(entries[i].1);
            }
        },
        _ => {},
    }
}

/// Everything in a document but its providers is preserved, where it stands.
pub proof fn law_other_keys_are_preserved(
    document: JsonModel,
    providers: Seq<(Seq<char>, JsonModel)>,
    path: Seq<char>,
)
    requires
        document is Object,
    ensures
        ({
            let root = document->Object_0;
            let after = with_providers(document, providers);
            &&& after is Object
            &&& providers_of(after, path) == Ok::<Seq<(Seq<char>, JsonModel)>, ErrorModel>(
                providers,
            )
            &&& forall|key: Seq<char>|
                key != "providers"@ ==> #[trigger] lookup(after->Object_0, key) == lookup(root, key)
            &&& root.len() <= after->Object_0.len()
            &&& forall|i: int|
                0 <= i < root.len() && root[i].0 != "providers"@ ==> #[trigger] after->Object_0[i]
                    == root[i]
        }),
{
    let root = document->Object_0;
    lemma_with_entry(root, "providers"@, JsonModel::Object(providers));
    lemma_first_where_holds(root, has_key("providers"@));
}

/// A node that was inserted is there, behind all others, and these are what
/// they were.
pub proof fn law_inserted_node_is_there(
    document: JsonModel,
    path: Seq<char>,
    provider_key: Seq<char>,
    config: JsonModel,
    after: JsonModel,
)
    requires
        insert_verdict(document, path, provider_key, config) == Ok::<Verdict<bool>, ErrorModel>(
            Verdict { outcome: true, document: Some(after) },
        ),
    ensures
        ({
            let before = providers_of(document, path)->Ok_0;
            &&& providers_of(after, path) == Ok::<Seq<(Seq<char>, JsonModel)>, ErrorModel>(
                before.push((provider_key, config)),
            )
            &&& lookup(before, provider_key) is None
            &&& lookup(before.push((provider_key, config)), provider_key) == Some(config)
            &&& forall|other: Seq<char>|
                other != provider_key ==> #[trigger] lookup(
                    before.push((provider_key, config)),
                    other,
                ) == lookup(before, other)
        }),
{
    let before = providers_of(document, path)->Ok_0;
    law_other_keys_are_preserved(document, with_entry(before, provider_key, config), path);
    lemma_with_entry(before, provider_key, config);
    lemma_first_where_holds(before, has_key(provider_key));
}

/// Inserting a node a second time changes nothing; inserting another one under
/// its key is refused as invalid input.
pub proof fn law_key_is_given_once(
    document: JsonModel,
    path: Seq<char>,
    provider_key: Seq<char>,
    config: JsonModel,
    after: JsonModel,
    other: JsonModel,
)
    requires
        json_valid(config),
        insert_verdict(document, path, provider_key, config) == Ok::<Verdict<bool>, ErrorModel>(
            Verdict { outcome: true, document: Some(after) },
        ),
    ensures
        insert_verdict(after, path, provider_key, config) == Ok::<Verdict<bool>, ErrorModel>(
            Verdict { outcome: false, document: None },
        ),
        !json_same(config, other) ==> insert_verdict(after, path, provider_key, other) == Err::<
            Verdict<bool>,
            ErrorModel,
        >(key_taken(provider_key)),
{
    law_inserted_node_is_there(document, path, provider_key, config, after);
    law_equality_is_reflexive(config);
}

/// Taking out a node that was inserted leaves the providers that were there
/// before, in their order.
pub proof fn law_removal_undoes_insertion(
    document: JsonModel,
    path: Seq<char>,
    provider_key: Seq<char>,
    config: JsonModel,
    after: JsonModel,
)
    requires
        insert_verdict(document, path, provider_key, config) == Ok::<Verdict<bool>, ErrorModel>(
            Verdict { outcome: true, document: Some(after) },
        ),
    ensures
        ({
            &&& remove_verdict(after, path, provider_key, None) matches Ok(verdict)
            &&& verdict.outcome == Some(config)
            &&& verdict.document matches Some(last)
            &&& providers_of(last, path) == providers_of(document, path)
        }),
{
    let before = providers_of(document, path)->Ok_0;
    let entries = before.push((provider_key, config));
    law_inserted_node_is_there(document, path, provider_key, config, after);
    lemma_first_where_holds(before, has_key(provider_key));
    assert forall|j: int| 0 <= j < before.len() implies !has_key::<JsonModel>(provider_key)(
        #[trigger] entries[j],
    ) by {
        assert(entries[j] == before[j]);
        assert(!has_key::<JsonModel>(provider_key)(before[j]));
    }
    lemma_first_where(entries, has_key(provider_key), before.len() as int);
    assert(without_entry(entries, provider_key) =~= before);
    law_other_keys_are_preserved(after, without_entry(entries, provider_key), path);
}

/// A node that was taken out is gone, and no other node is.
pub proof fn law_removed_node_is_gone(
    document: JsonModel,
    path: Seq<char>,
    provider_key: Seq<char>,
    expected: Option<JsonModel>,
    node: JsonModel,
    after: JsonModel,
)
    requires
        json_valid(document),
        remove_verdict(document, path, provider_key, expected) == Ok::<
            Verdict<Option<JsonModel>>,
            ErrorModel,
        >(Verdict { outcome: Some(node), document: Some(after) }),
    ensures
        ({
            let before = providers_of(document, path)->Ok_0;
            let left = without_entry(before, provider_key);
            &&& providers_of(after, path) == Ok::<Seq<(Seq<char>, JsonModel)>, ErrorModel>(left)
            &&& lookup(before, provider_key) == Some(node)
            &&& lookup(left, provider_key) is None
            &&& forall|other: Seq<char>|
                other != provider_key ==> #[trigger] lookup(left, other) == lookup(before, other)
        }),
{
    let before = providers_of(document, path)->Ok_0;
    lemma_providers_valid(document, path);
    lemma_without_entry(before, provider_key);
    law_other_keys_are_preserved(document, without_entry(before, provider_key), path);
}

/// Putting a node back that was taken out leaves every key with the node that
/// it had.
pub proof fn law_restoring_undoes_removal(
    document: JsonModel,
    path: Seq<char>,
    provider_key: Seq<char>,
    expected: Option<JsonModel>,
    node: JsonModel,
    after: JsonModel,
)
    requires
        json_valid(document),
        remove_verdict(document, path, provider_key, expected) == Ok::<
            Verdict<Option<JsonModel>>,
            ErrorModel,
        >(Verdict { outcome: Some(node), document: Some(after) }),
    ensures
        ({
            &&& restore_verdict(after, path, provider_key, node) matches Ok(verdict)
            &&& verdict.document matches Some(last)
            &&& providers_of(last, path) matches Ok(entries)
            &&& forall|key: Seq<char>| #[trigger]
                lookup(entries, key) == lookup(providers_of(document, path)->Ok_0, key)
        }),
{
    let before = providers_of(document, path)->Ok_0;
    let left = without_entry(before, provider_key);
    law_removed_node_is_gone(document, path, provider_key, expected, node, after);
    lemma_with_entry(left, provider_key, node);
    law_other_keys_are_preserved(after, with_entry(left, provider_key, node), path);
}

/// A node is replaced only where it is the expected one. Then the replacement
/// stands in its place, and every other node is what it was.
pub proof fn law_replacement_takes_the_place(
    document: JsonModel,
    path: Seq<char>,
    provider_key: Seq<char>,
    expected: JsonModel,
    replacement: JsonModel,
    after: JsonModel,
)
    requires
        replace_verdict(document, path, provider_key, expected, replacement) == Ok::<
            Verdict<()>,
            ErrorModel,
        >(Verdict { outcome: (), document: Some(after) }),
    ensures
        ({
            let before = providers_of(document, path)->Ok_0;
            let i = key_index(before, provider_key) as int;
            &&& i < before.len()
            &&& json_same(before[i].1, expected)
            &&& providers_of(after, path) == Ok::<Seq<(Seq<char>, JsonModel)>, ErrorModel>(
                before.update(i, (provider_key, replacement)),
            )
            &&& before[i].0 == provider_key
        }),
{
    let before = providers_of(document, path)->Ok_0;
    lemma_first_where_holds(before, has_key(provider_key));
    law_other_keys_are_preserved(document, with_entry(before, provider_key, replacement), path);
}

/// A node that is not the expected one is neither replaced nor taken out.
pub proof fn law_unexpected_node_is_left_alone(
    document: JsonModel,
    path: Seq<char>,
    provider_key: Seq<char>,
    expected: JsonModel,
    replacement: JsonModel,
    node: JsonModel,
)
    requires
        providers_of(document, path) matches Ok(entries) && lookup(entries, provider_key) == Some(
            node,
        ),
        !json_same(node, expected),
    ensures
        replace_verdict(document, path, provider_key, expected, replacement) == Err::<
            Verdict<()>,
            ErrorModel,
        >(changed_outside(provider_key)),
        remove_verdict(document, path, provider_key, Some(expected)) == Err::<
            Verdict<Option<JsonModel>>,
            ErrorModel,
        >(changed_outside(provider_key)),
{
}

/// A revision is never the word that stands for a missing file.
pub proof fn law_revision_is_not_missing(bytes: Seq<u8>)
    ensures
        revision_of(bytes) != "missing"@,
{
    reveal_strlit("missing");
    lemma_hex_length(sha256_digest(bytes));
}

/// A file that is as it was read may be written.
pub proof fn law_unchanged_file_may_be_written(
    file: Option<Seq<u8>>,
    path: Seq<char>,
    document: JsonModel,
    revision: Seq<char>,
)
    requires
        models_document(file, path) == Ok::<(JsonModel, Seq<char>), ErrorModel>(
            (document, revision),
        ),
    ensures
        revision_error(file, path, revision) is None,
{
}

/// A file that has another digest than when it was read, or that has come or
/// gone since, may not be written. The answer is a conflict, unless the file is
/// now above the limit.
pub proof fn law_stale_write_is_refused(
    file: Option<Seq<u8>>,
    path: Seq<char>,
    document: JsonModel,
    revision: Seq<char>,
    now: Option<Seq<u8>>,
)
    requires
        models_document(file, path) == Ok::<(JsonModel, Seq<char>), ErrorModel>(
            (document, revision),
        ),
        match (file, now) {
            (Some(before), Some(after)) => sha256_digest(before) != sha256_digest(after),
            (None, None) => false,
            _ => true,
        },
    ensures
        revision_error(now, path, revision) is Some,
        now is None || now->0.len() <= MAX_OMP_FILE_BYTES ==> revision_error(now, path, revision)
            == Some(ErrorModel::Conflict("OMP models.json changed outside CC Switch: "@ + path)),
{
    if let Some(before) = file {
        law_revision_is_not_missing(before);
        if let Some(after) = now {
            crate::revision::law_revision_tells_digests_apart(before, after);
        }
    }
    if let Some(after) = now {
        law_revision_is_not_missing(after);
    }
}

/// Entries whose text reads as themselves are such entries still, once another
/// such value is among them.
proof fn lemma_with_entry_safe(
    entries: Seq<(Seq<char>, JsonModel)>,
    key: Seq<char>,
    value: JsonModel,
)
    requires
        json5_safe(JsonModel::Object(entries)),
        json5_text(key),
        json5_safe(value),
    ensures
        json5_safe(JsonModel::Object(with_entry(entries, key, value))),
{
    lemma_first_where_holds(entries, has_key(key));
    let before = JsonModel::Object(entries);
    let after = with_entry(entries, key, value);
    assert forall|i: int| 0 <= i < after.len() implies json5_text((#[trigger] after[i]).0)
        && json5_safe(after[i].1) by {
        if i != key_index(entries, key) {
            assert(after[i] == before->Object_0[i]);
        }
    }
}

/// A document whose text reads as itself has providers of that sort, and is of
/// that sort still, once it has other such providers.
pub proof fn law_safe_providers_keep_text_safe(
    document: JsonModel,
    path: Seq<char>,
    providers: Seq<(Seq<char>, JsonModel)>,
)
    requires
        json5_safe(document),
    ensures
        providers_of(document, path) matches Ok(entries) ==> json5_safe(JsonModel::Object(entries)),
        json5_safe(JsonModel::Object(providers)) ==> json5_safe(
            with_providers(document, providers),
        ),
{
    if let JsonModel::Object(root) = document {
        reveal_strlit("providers");
        lemma_first_where_holds(root, has_key("providers"@));
        if json5_safe(JsonModel::Object(providers)) {
            lemma_with_entry_safe(root, "providers"@, JsonModel::Object(providers));
        }
    }
}

/// Inserting, replacing, taking out and putting back keep a document's text
/// safe, if the key and the node are.
pub proof fn law_changes_keep_text_safe(
    document: JsonModel,
    path: Seq<char>,
    provider_key: Seq<char>,
    expected: JsonModel,
    config: JsonModel,
)
    requires
        json5_safe(document),
        json5_text(provider_key),
        json5_safe(config),
    ensures
        insert_verdict(document, path, provider_key, config) matches Ok(verdict)
            ==> verdict.document matches Some(after) ==> json5_safe(after),
        replace_verdict(document, path, provider_key, expected, config) matches Ok(verdict)
            ==> verdict.document matches Some(after) ==> json5_safe(after),
        replace_present_verdict(document, path, provider_key, config) matches Ok(verdict)
            ==> verdict.document matches Some(after) ==> json5_safe(after),
        remove_verdict(document, path, provider_key, Some(expected)) matches Ok(verdict)
            ==> verdict.document matches Some(after) ==> json5_safe(after),
        remove_verdict(document, path, provider_key, None) matches Ok(verdict)
            ==> verdict.document matches Some(after) ==> json5_safe(after),
        restore_verdict(document, path, provider_key, config) matches Ok(verdict)
            ==> verdict.document matches Some(after) ==> json5_safe(after),
{
    if providers_of(document, path) is Ok {
        let entries = providers_of(document, path)->Ok_0;
        let more = with_entry(entries, provider_key, config);
        let less = without_entry(entries, provider_key);
        law_safe_providers_keep_text_safe(document, path, more);
        law_safe_providers_keep_text_safe(document, path, less);
        lemma_with_entry_safe(entries, provider_key, config);
        lemma_first_where_holds(entries, has_key(provider_key));
        let k = key_index(entries, provider_key) as int;
        assert(json5_safe(JsonModel::Object(less))) by {
            assert forall|i: int| 0 <= i < less.len() implies json5_text((#[trigger] less[i]).0)
                && json5_safe(less[i].1) by {
                if k < entries.len() && i == k {
                    assert(less[i] == entries[entries.len() - 1]);
                } else {
                    assert(less[i] == entries[i]);
                }
            }
        }
    }
}

/// A document that was written is read back, with the providers in it, and with
/// a revision under which it may be written again, if it is safe to read as
/// JSON5 and its bytes are within the limit.
pub proof fn law_written_document_is_read_back(
    write: ModelsWrite,
    document: JsonModel,
    revision: Seq<char>,
    path: Seq<char>,
)
    requires
        write.carries(document, revision),
        json5_safe(document),
        write.bytes@.len() <= MAX_OMP_FILE_BYTES,
    ensures
        models_document(Some(write.bytes@), path) == Ok::<(JsonModel, Seq<char>), ErrorModel>(
            (document, revision_of(write.bytes@)),
        ),
        native_providers(Some(write.bytes@), path) == providers_of(document, path),
        revision_error(Some(write.bytes@), path, revision_of(write.bytes@)) is None,
{
    assert(models_document(Some(write.bytes@), path) is Ok);
}

/// A node that was inserted is read back from the bytes that were written for
/// it, and so is every other provider, if the document is safe to read as JSON5
/// and the bytes are within the limit.
pub proof fn law_inserted_node_is_read_back(
    document: JsonModel,
    path: Seq<char>,
    provider_key: Seq<char>,
    config: JsonModel,
    after: JsonModel,
    write: ModelsWrite,
    revision: Seq<char>,
)
    requires
        insert_verdict(document, path, provider_key, config) == Ok::<Verdict<bool>, ErrorModel>(
            Verdict { outcome: true, document: Some(after) },
        ),
        write.carries(after, revision),
        json5_safe(document),
        json5_text(provider_key),
        json5_safe(config),
        write.bytes@.len() <= MAX_OMP_FILE_BYTES,
    ensures
        ({
            &&& native_providers(Some(write.bytes@), path) matches Ok(entries)
            &&& lookup(entries, provider_key) == Some(config)
            &&& forall|other: Seq<char>|
                other != provider_key ==> #[trigger] lookup(entries, other) == lookup(
                    providers_of(document, path)->Ok_0,
                    other,
                )
        }),
{
    law_changes_keep_text_safe(document, path, provider_key, config, config);
    law_inserted_node_is_there(document, path, provider_key, config, after);
    law_written_document_is_read_back(write, after, revision, path);
}

} // verus!
