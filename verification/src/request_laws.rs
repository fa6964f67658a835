//! What a caller gets for each request about `models.json`, told by the text of
//! the file, by the places at which its entries stand, and by what is returned.

use std::hash::RandomState;

use vstd::prelude::*;
use vstd::utf8::{
    encode_utf8, encode_utf8_decode_utf8, encode_utf8_valid_utf8, valid_utf8,
};

use crate::change_laws::{
    differs_in_providers, holds_providers, law_absent_node_is_not_replaced,
    law_document_without_object_is_left_alone, law_expected_node_is_replaced,
    law_insertion_under_a_free_key, law_insertion_under_a_taken_key, law_node_is_looked_at_first,
    law_node_is_taken_out, law_present_node_is_replaced, law_providers_are_read,
    law_removal_that_writes_nothing, law_replacement_that_writes_nothing,
    law_restoring_under_a_free_key, law_restoring_under_a_taken_key,
    law_write_is_the_text_of_the_document, providers_without,
};
use crate::entry_laws::{
    law_lookup_finds_nothing_else, law_lookup_finds_what_stands, stands_at, stands_nowhere,
};
use crate::error::{AppError, ErrorModel};
use crate::files::file_bytes;
use crate::json::{entries_model, json_same, Json, JsonModel};
use crate::json_text::{json5_read, json_pretty};
use crate::models::{
    collect_providers, confirm_models_write, current_node, ensure_models_revision, insert_into_document, insert_omp_provider,
    models_document, omp_provider_exists, providers, read_models_document,
    read_models_document_with_revision, read_omp_native_provider, read_omp_native_providers,
    remove_from_document, remove_omp_provider, remove_omp_provider_if_matches,
    remove_omp_provider_inner, replace_in_document, replace_omp_provider,
    replace_omp_provider_if_present, replace_present_in_document, restore_in_document,
    restore_omp_provider_if_missing, write_models_document, Change, Decision, ModelsWrite,
};
use crate::provider::validate_provider_node;
use crate::provider_map::provider_entries;
use crate::revision::{hex, sha256_digest};
use crate::text::utf8_error;
use crate::text_laws::{blank, law_only_white_space_trims_to_nothing};

verus! {

/// The file is missing, and so has no entries and the word for that as its
/// revision; or it is no longer than one mebibyte, its bytes encode a text in
/// which JSON5 reads the document, and its revision is their digest.
pub open spec fn file_holds(
    file: Option<Vec<u8>>,
    document: JsonModel,
    revision: Seq<char>,
) -> bool {
    match file {
        None => document == JsonModel::Object(seq![]) && revision == "missing"@,
        Some(bytes) => {
            &&& bytes@.len() <= 1_048_576
            &&& revision == hex(sha256_digest(bytes@))
            &&& exists|text: Seq<char>|
                {
                    &&& #[trigger] encode_utf8(text) == bytes@
                    &&& json5_read(text) == Ok::<JsonModel, Seq<char>>(document)
                }
        },
    }
}

/// Why nothing is read in a file with these bytes: they are too many, they encode
/// no text, or JSON5 reads no value in the text.
pub open spec fn unreadable(bytes: Seq<u8>, path: Seq<char>, error: ErrorModel) -> bool {
    ||| bytes.len() > 1_048_576 && error == ErrorModel::InvalidInput(
        "OMP models"@ + " file exceeds the 1 MiB limit: "@ + path,
    )
    ||| bytes.len() <= 1_048_576 && !valid_utf8(bytes) && error == ErrorModel::Config(
        "OMP models"@ + " file must be UTF-8 ("@ + path + "): "@ + utf8_error(bytes),
    )
    ||| bytes.len() <= 1_048_576 && exists|text: Seq<char>|
        {
            &&& #[trigger] encode_utf8(text) == bytes
            &&& json5_read(text) is Err
            &&& error == ErrorModel::Config(
                "OMP models"@ + " file is not valid JSON/JSONC ("@ + path + "): "@ + json5_read(
                    text,
                )->Err_0,
            )
        }
}

/// What is to be written, over that revision, is the text of the document with
/// these providers in it and with nothing else changed.
pub open spec fn writes_providers(
    write: Option<ModelsWrite>,
    document: JsonModel,
    revision: Seq<char>,
    entries: Seq<(Seq<char>, JsonModel)>,
) -> bool {
    &&& write is Some
    &&& write->0.expected_revision@ == revision
    &&& exists|after: JsonModel|
        {
            &&& #[trigger] differs_in_providers(document, after, entries)
            &&& write->0.bytes@ == encode_utf8(json_pretty(after)).push(0x0a)
        }
}

/// What a file holds is what is read in it.
proof fn lemma_file_is_read(
    file: Option<Vec<u8>>,
    document: JsonModel,
    revision: Seq<char>,
    path: Seq<char>,
)
    requires
        file_holds(file, document, revision),
    ensures
        models_document(file_bytes(file), path) == Ok::<(JsonModel, Seq<char>), ErrorModel>(
            (document, revision),
        ),
{
    if let Some(bytes) = file {
        let text = choose|text: Seq<char>|
            {
                &&& #[trigger] encode_utf8(text) == bytes@
                &&& json5_read(text) == Ok::<JsonModel, Seq<char>>(document)
            };
        encode_utf8_valid_utf8(text);
        encode_utf8_decode_utf8(text);
    }
}

/// Nothing is read in an unreadable file, and why is said.
proof fn lemma_file_is_not_read(bytes: Vec<u8>, path: Seq<char>, error: ErrorModel)
    requires
        unreadable(bytes@, path, error),
    ensures
        models_document(file_bytes(Some(bytes)), path) == Err::<(JsonModel, Seq<char>), ErrorModel>(
            error,
        ),
{
    if bytes@.len() <= 1_048_576 && exists|text: Seq<char>|
        {
            &&& #[trigger] encode_utf8(text) == bytes@
            &&& json5_read(text) is Err
            &&& error == ErrorModel::Config(
                "OMP models"@ + " file is not valid JSON/JSONC ("@ + path + "): "@ + json5_read(
                    text,
                )->Err_0,
            )
        } {
        let text = choose|text: Seq<char>|
            {
                &&& #[trigger] encode_utf8(text) == bytes@
                &&& json5_read(text) is Err
                &&& error == ErrorModel::Config(
                    "OMP models"@ + " file is not valid JSON/JSONC ("@ + path + "): "@
                        + json5_read(text)->Err_0,
                )
            };
        encode_utf8_valid_utf8(text);
        encode_utf8_decode_utf8(text);
    }
}

/// Reading a file gives the document that it holds, and its revision.
pub proof fn law_reading_gives_what_the_file_holds(
    file: Option<Vec<u8>>,
    path: &str,
    document: JsonModel,
    revision: Seq<char>,
    r: Result<(Json, String), AppError>,
    s: Result<Json, AppError>,
)
    requires
        file_holds(file, document, revision),
        call_ensures(read_models_document_with_revision, (file, path), r),
        call_ensures(read_models_document, (file, path), s),
    ensures
        ({
            &&& r matches Ok((value, over))
            &&& value@ == document
            &&& over@ == revision
        }),
        ({
            &&& s matches Ok(value)
            &&& value@ == document
        }),
{
    lemma_file_is_read(file, document, revision, path@);
}

/// Reading an unreadable file fails and says why.
pub proof fn law_reading_says_what_is_wrong(
    bytes: Vec<u8>,
    path: &str,
    error: ErrorModel,
    provider_key: &str,
    all: Result<indexmap::IndexMap<String, Json, RandomState>, AppError>,
    one: Result<Option<Json>, AppError>,
    there: Result<bool, AppError>,
    gone: Result<Change<Option<Json>>, AppError>,
)
    requires
        unreadable(bytes@, path@, error),
        call_ensures(read_omp_native_providers, (Some(bytes), path), all),
        call_ensures(read_omp_native_provider, (provider_key, Some(bytes), path), one),
        call_ensures(omp_provider_exists, (provider_key, Some(bytes), path), there),
        call_ensures(remove_omp_provider, (provider_key, Some(bytes), path), gone),
    ensures
        all matches Err(e) && e@ == error,
        one matches Err(e) && e@ == error,
        there matches Err(e) && e@ == error,
        gone matches Err(e) && e@ == error,
{
    lemma_file_is_not_read(bytes, path@, error);
}

/// The providers that are read are those of the file, in their order. One of them
/// is read by its key, wherever it stands, and is there; under any other key there
/// is none.
pub proof fn law_providers_are_found(
    file: Option<Vec<u8>>,
    path: &str,
    document: JsonModel,
    revision: Seq<char>,
    entries: Seq<(Seq<char>, JsonModel)>,
    provider_key: &str,
    i: int,
    all: Result<indexmap::IndexMap<String, Json, RandomState>, AppError>,
    one: Result<Option<Json>, AppError>,
    there: Result<bool, AppError>,
)
    requires
        file_holds(file, document, revision),
        holds_providers(document, entries),
        call_ensures(read_omp_native_providers, (file, path), all),
        call_ensures(read_omp_native_provider, (provider_key, file, path), one),
        call_ensures(omp_provider_exists, (provider_key, file, path), there),
    ensures
        ({
            &&& all matches Ok(map)
            &&& provider_entries(map) == entries
        }),
        stands_at(entries, provider_key@, i) ==> {
            &&& one matches Ok(Some(node))
            &&& node@ == entries[i].1
            &&& there == Ok::<bool, AppError>(true)
        },
        stands_nowhere(entries, provider_key@) ==> {
            &&& one == Ok::<Option<Json>, AppError>(None)
            &&& there == Ok::<bool, AppError>(false)
        },
{
    lemma_file_is_read(file, document, revision, path@);
    law_providers_are_read(document, path@, entries);
    if stands_at(entries, provider_key@, i) {
        law_lookup_finds_what_stands(entries, provider_key@, i);
    }
    if stands_nowhere(entries, provider_key@) {
        law_lookup_finds_nothing_else(entries, provider_key@);
    }
}

/// The providers of a document are found in it, all of them in their order, and
/// one of them by its key, wherever it stands.
pub proof fn law_nodes_of_a_document_are_found(
    document: &Json,
    path: &str,
    entries: Seq<(Seq<char>, JsonModel)>,
    provider_key: &str,
    i: int,
    all: Result<indexmap::IndexMap<String, Json, RandomState>, AppError>,
    list: Result<Option<&Vec<(String, Json)>>, AppError>,
    one: Result<Option<&Json>, AppError>,
)
    requires
        holds_providers(document@, entries),
        call_ensures(collect_providers, (document, path), all),
        call_ensures(providers, (document, path), list),
        call_ensures(current_node, (document, provider_key, path), one),
    ensures
        all is Ok && provider_entries(all->Ok_0) == entries,
        list is Ok,
        list matches Ok(Some(found)) ==> entries_model(found@) == entries,
        list matches Ok(None) ==> entries.len() == 0,
        stands_at(entries, provider_key@, i) ==> {
            &&& one matches Ok(Some(node))
            &&& node@ == entries[i].1
        },
        stands_nowhere(entries, provider_key@) ==> one matches Ok(None),
{
    law_providers_are_read(document@, path@, entries);
    if stands_at(entries, provider_key@, i) {
        law_lookup_finds_what_stands(entries, provider_key@, i);
    }
    if stands_nowhere(entries, provider_key@) {
        law_lookup_finds_nothing_else(entries, provider_key@);
    }
}

/// What is to be written for a document is its indented text and a line feed, over
/// the revision that is handed in.
pub proof fn law_document_is_turned_into_its_text(
    document: Json,
    expected_revision: String,
    r: Result<ModelsWrite, AppError>,
)
    requires
        call_ensures(write_models_document, (document, expected_revision), r),
    ensures
        ({
            &&& r matches Ok(write)
            &&& write.bytes@ == encode_utf8(json_pretty(document@)).push(0x0a)
            &&& write.expected_revision@ == expected_revision@
        }),
{
    law_write_is_the_text_of_the_document(
        Some(r->Ok_0),
        Some(document@),
        expected_revision@,
    );
}

/// A key that is more than white space may have any object for its node; a key of
/// white space alone, and a node that is not an object, are refused.
pub proof fn law_objects_may_stand_under_names(
    provider_key: &str,
    config: &Json,
    r: Result<(), AppError>,
)
    requires
        call_ensures(validate_provider_node, (provider_key, config), r),
    ensures
        r is Ok <==> !blank(provider_key@) && config@ is Object,
        blank(provider_key@) ==> r->Err_0@ == ErrorModel::InvalidInput(
            "OMP provider key cannot be empty"@,
        ),
        !blank(provider_key@) && !(config@ is Object) ==> r->Err_0@ == ErrorModel::InvalidInput(
            "OMP provider configuration must be an object"@,
        ),
{
    law_only_white_space_trims_to_nothing(provider_key@);
}

/// Inserting a node into a document: where the key is free the node is new and
/// comes behind all other providers, and where the key is taken, at whatever
/// place, nothing is written, and another node than the same one is refused.
pub proof fn law_insertion_into_a_document(
    document: Json,
    provider_key: &str,
    config: &Json,
    path: &str,
    entries: Seq<(Seq<char>, JsonModel)>,
    i: int,
    r: Result<Decision<bool>, AppError>,
)
    requires
        holds_providers(document@, entries),
        call_ensures(insert_into_document, (document, provider_key, config, path), r),
    ensures
        stands_nowhere(entries, provider_key@) ==> {
            &&& r matches Ok(decision)
            &&& decision.outcome
            &&& decision.document matches Some(after)
            &&& differs_in_providers(document@, after@, entries.push((provider_key@, config@)))
        },
        stands_at(entries, provider_key@, i) && !json_same(entries[i].1, config@) ==> {
            &&& r matches Err(error)
            &&& error@ == ErrorModel::InvalidInput(
                "OMP provider key '"@ + provider_key@ + "' already exists in models.json"@,
            )
        },
        stands_at(entries, provider_key@, i) && json_same(entries[i].1, config@) ==> {
            &&& r matches Ok(decision)
            &&& !decision.outcome
            &&& decision.document is None
        },
        r matches Ok(decision) ==> (decision.outcome <==> decision.document is Some),
{
    if stands_nowhere(entries, provider_key@) {
        law_insertion_under_a_free_key(document@, path@, provider_key@, config@, entries);
    }
    if stands_at(entries, provider_key@, i) {
        law_insertion_under_a_taken_key(document@, path@, provider_key@, config@, entries, i);
    }
}

/// Replacing a node of a document: one that is the expected one and not the
/// replacement gives its place to it, one that is both is left, and any other, or
/// none, is a conflict.
pub proof fn law_replacement_in_a_document(
    document: Json,
    provider_key: &str,
    expected: &Json,
    replacement: &Json,
    path: &str,
    entries: Seq<(Seq<char>, JsonModel)>,
    i: int,
    r: Result<Decision<()>, AppError>,
)
    requires
        holds_providers(document@, entries),
        call_ensures(
            replace_in_document,
            (document, provider_key, expected, replacement, path),
            r,
        ),
    ensures
        stands_at(entries, provider_key@, i) && json_same(entries[i].1, expected@) && !json_same(
            entries[i].1,
            replacement@,
        ) ==> {
            &&& r matches Ok(decision)
            &&& decision.document matches Some(after)
            &&& differs_in_providers(
                document@,
                after@,
                entries.update(i, (provider_key@, replacement@)),
            )
        },
        stands_at(entries, provider_key@, i) && json_same(entries[i].1, expected@) && json_same(
            entries[i].1,
            replacement@,
        ) ==> {
            &&& r matches Ok(decision)
            &&& decision.document is None
        },
        stands_at(entries, provider_key@, i) && !json_same(entries[i].1, expected@) ==> {
            &&& r matches Err(error)
            &&& error@ == ErrorModel::Conflict(
                "OMP provider '"@ + provider_key@ + "' changed outside CC Switch"@,
            )
        },
        stands_nowhere(entries, provider_key@) ==> {
            &&& r matches Err(error)
            &&& error@ == ErrorModel::Conflict(
                "OMP provider '"@ + provider_key@ + "' is no longer present in models.json"@,
            )
        },
{
    let (key, was, is) = (provider_key@, expected@, replacement@);
    if stands_at(entries, key, i) && json_same(entries[i].1, was) && !json_same(entries[i].1, is) {
        law_expected_node_is_replaced(document@, path@, key, was, is, entries, i);
    }
    if stands_at(entries, key, i) || stands_nowhere(entries, key) {
        law_replacement_that_writes_nothing(document@, path@, key, was, is, entries, i);
    }
}

/// Replacing a node of a document, whatever it is: it is answered, and it gives its
/// place to the replacement, unless it is the same. Where there is none, nothing is
/// answered and nothing changed.
pub proof fn law_replacement_of_a_present_node(
    document: Json,
    provider_key: &str,
    replacement: &Json,
    path: &str,
    entries: Seq<(Seq<char>, JsonModel)>,
    i: int,
    r: Result<Decision<Option<Json>>, AppError>,
)
    requires
        holds_providers(document@, entries),
        call_ensures(
            replace_present_in_document,
            (document, provider_key, replacement, path),
            r,
        ),
    ensures
        stands_at(entries, provider_key@, i) ==> {
            &&& r matches Ok(decision)
            &&& decision.outcome matches Some(node)
            &&& node@ == entries[i].1
            &&& json_same(entries[i].1, replacement@) ==> decision.document is None
            &&& !json_same(entries[i].1, replacement@) ==> decision.document is Some
                && differs_in_providers(
                document@,
                decision.document->0@,
                entries.update(i, (provider_key@, replacement@)),
            )
        },
        stands_nowhere(entries, provider_key@) ==> {
            &&& r matches Ok(decision)
            &&& decision.outcome is None
            &&& decision.document is None
        },
{
    let (key, is) = (provider_key@, replacement@);
    if stands_at(entries, key, i) && !json_same(entries[i].1, is) {
        law_present_node_is_replaced(document@, path@, key, is, entries, i);
    }
    if stands_at(entries, key, i) || stands_nowhere(entries, key) {
        law_absent_node_is_not_replaced(document@, path@, key, is, entries, i);
    }
}

/// Taking a node out of a document: it is answered, and the document is without
/// it, unless another one is expected, which is a conflict. Where there is none,
/// nothing is answered and nothing changed.
pub proof fn law_removal_from_a_document(
    document: Json,
    provider_key: &str,
    expected: Option<&Json>,
    path: &str,
    entries: Seq<(Seq<char>, JsonModel)>,
    i: int,
    r: Result<Decision<Option<Json>>, AppError>,
)
    requires
        holds_providers(document@, entries),
        call_ensures(remove_from_document, (document, provider_key, expected, path), r),
    ensures
        stands_at(entries, provider_key@, i) ==> if expected is Some && !json_same(
            entries[i].1,
            expected->0@,
        ) {
            &&& r matches Err(error)
            &&& error@ == ErrorModel::Conflict(
                "OMP provider '"@ + provider_key@ + "' changed outside CC Switch"@,
            )
        } else {
            &&& r matches Ok(decision)
            &&& decision.outcome matches Some(node)
            &&& node@ == entries[i].1
            &&& decision.document matches Some(after)
            &&& differs_in_providers(document@, after@, providers_without(entries, i))
        },
        stands_nowhere(entries, provider_key@) ==> {
            &&& r matches Ok(decision)
            &&& decision.outcome is None
            &&& decision.document is None
        },
{
    let key = provider_key@;
    let was = match expected {
        Some(node) => Some(node@),
        None => None,
    };
    if stands_at(entries, key, i) && !(was is Some && !json_same(entries[i].1, was->0)) {
        law_node_is_taken_out(document@, path@, key, was, entries, i);
    }
    if stands_at(entries, key, i) || stands_nowhere(entries, key) {
        law_removal_that_writes_nothing(document@, path@, key, was, entries, i);
    }
}

/// Putting a node back into a document: under a free key it comes behind all other
/// providers, and under a taken key, at whatever place, nothing is written, and
/// another node than the same one is a conflict.
pub proof fn law_restoring_in_a_document(
    document: Json,
    provider_key: &str,
    config: &Json,
    path: &str,
    entries: Seq<(Seq<char>, JsonModel)>,
    i: int,
    r: Result<Decision<()>, AppError>,
)
    requires
        holds_providers(document@, entries),
        call_ensures(restore_in_document, (document, provider_key, config, path), r),
    ensures
        stands_nowhere(entries, provider_key@) ==> {
            &&& r matches Ok(decision)
            &&& decision.document matches Some(after)
            &&& differs_in_providers(document@, after@, entries.push((provider_key@, config@)))
        },
        stands_at(entries, provider_key@, i) && !json_same(entries[i].1, config@) ==> {
            &&& r matches Err(error)
            &&& error@ == ErrorModel::Conflict(
                "cannot restore OMP provider '"@ + provider_key@
                    + "' because another value now owns the key"@,
            )
        },
        stands_at(entries, provider_key@, i) && json_same(entries[i].1, config@) ==> {
            &&& r matches Ok(decision)
            &&& decision.document is None
        },
{
    if stands_nowhere(entries, provider_key@) {
        law_restoring_under_a_free_key(document@, path@, provider_key@, config@, entries);
    }
    if stands_at(entries, provider_key@, i) {
        law_restoring_under_a_taken_key(document@, path@, provider_key@, config@, entries, i);
    }
}

/// Inserting an object into a file, under a key that is more than white space:
/// where the key is free the node is new, and the file is to be written with the
/// node behind all other providers, over the revision that it had. Where the key
/// is taken nothing is to be written, and another node is refused.
pub proof fn law_insertion_into_a_file(
    provider_key: &str,
    config: &Json,
    file: Option<Vec<u8>>,
    path: &str,
    document: JsonModel,
    revision: Seq<char>,
    entries: Seq<(Seq<char>, JsonModel)>,
    i: int,
    r: Result<Change<bool>, AppError>,
)
    requires
        file_holds(file, document, revision),
        holds_providers(document, entries),
        !blank(provider_key@),
        config@ is Object,
        call_ensures(insert_omp_provider, (provider_key, config, file, path), r),
    ensures
        stands_nowhere(entries, provider_key@) ==> {
            &&& r matches Ok(change)
            &&& change.outcome
            &&& writes_providers(
                change.write,
                document,
                revision,
                entries.push((provider_key@, config@)),
            )
        },
        stands_at(entries, provider_key@, i) && !json_same(entries[i].1, config@) ==> {
            &&& r matches Err(error)
            &&& error@ == ErrorModel::InvalidInput(
                "OMP provider key '"@ + provider_key@ + "' already exists in models.json"@,
            )
        },
        stands_at(entries, provider_key@, i) && json_same(entries[i].1, config@) ==> {
            &&& r matches Ok(change)
            &&& !change.outcome
            &&& change.write is None
        },
{
    let (key, node) = (provider_key@, config@);
    lemma_file_is_read(file, document, revision, path@);
    law_node_is_looked_at_first(file_bytes(file), path@, key, node, node);
    if stands_nowhere(entries, key) {
        law_insertion_under_a_free_key(document, path@, key, node, entries);
        lemma_change_is_written(r->Ok_0.write, document, revision);
    }
    if stands_at(entries, key, i) {
        law_insertion_under_a_taken_key(document, path@, key, node, entries, i);
    }
}

/// What is written for a document that differs in its providers is that document.
proof fn lemma_change_is_written(
    write: Option<ModelsWrite>,
    document: JsonModel,
    revision: Seq<char>,
)
    ensures
        forall|after: JsonModel, entries: Seq<(Seq<char>, JsonModel)>|
            crate::models::carried(write, Some(after), revision) && #[trigger] differs_in_providers(
                document,
                after,
                entries,
            ) ==> writes_providers(write, document, revision, entries),
{
    assert forall|after: JsonModel, entries: Seq<(Seq<char>, JsonModel)>|
        crate::models::carried(write, Some(after), revision) && #[trigger] differs_in_providers(
            document,
            after,
            entries,
        ) implies writes_providers(write, document, revision, entries) by {
        law_write_is_the_text_of_the_document(write, Some(after), revision);
    }
}

/// Replacing a node of a file by an object, under a key that is more than white
/// space: where the node is the expected one and not the replacement, the file is
/// to be written with the replacement in its place, over the revision that it had.
/// Nothing is to be written otherwise.
pub proof fn law_replacement_in_a_file(
    provider_key: &str,
    expected: &Json,
    replacement: &Json,
    file: Option<Vec<u8>>,
    path: &str,
    document: JsonModel,
    revision: Seq<char>,
    entries: Seq<(Seq<char>, JsonModel)>,
    i: int,
    r: Result<Change<()>, AppError>,
)
    requires
        file_holds(file, document, revision),
        holds_providers(document, entries),
        !blank(provider_key@),
        replacement@ is Object,
        call_ensures(
            replace_omp_provider,
            (provider_key, expected, replacement, file, path),
            r,
        ),
    ensures
        stands_at(entries, provider_key@, i) && json_same(entries[i].1, expected@) && !json_same(
            entries[i].1,
            replacement@,
        ) ==> {
            &&& r matches Ok(change)
            &&& writes_providers(
                change.write,
                document,
                revision,
                entries.update(i, (provider_key@, replacement@)),
            )
        },
        stands_at(entries, provider_key@, i) && json_same(entries[i].1, expected@) && json_same(
            entries[i].1,
            replacement@,
        ) ==> {
            &&& r matches Ok(change)
            &&& change.write is None
        },
        stands_at(entries, provider_key@, i) && !json_same(entries[i].1, expected@) ==> {
            &&& r matches Err(error)
            &&& error@ == ErrorModel::Conflict(
                "OMP provider '"@ + provider_key@ + "' changed outside CC Switch"@,
            )
        },
        stands_nowhere(entries, provider_key@) ==> {
            &&& r matches Err(error)
            &&& error@ == ErrorModel::Conflict(
                "OMP provider '"@ + provider_key@ + "' is no longer present in models.json"@,
            )
        },
{
    let (key, was, is) = (provider_key@, expected@, replacement@);
    lemma_file_is_read(file, document, revision, path@);
    law_node_is_looked_at_first(file_bytes(file), path@, key, is, was);
    if stands_at(entries, key, i) && json_same(entries[i].1, was) && !json_same(entries[i].1, is) {
        law_expected_node_is_replaced(document, path@, key, was, is, entries, i);
        lemma_change_is_written(r->Ok_0.write, document, revision);
    }
    if stands_at(entries, key, i) || stands_nowhere(entries, key) {
        law_replacement_that_writes_nothing(document, path@, key, was, is, entries, i);
    }
}

/// Replacing a node of a file, whatever it is, by an object, under a key that is
/// more than white space: the node is answered, and the file is to be written with
/// the replacement in its place, over the revision that it had, unless the node is
/// the same. Where there is none nothing is answered and nothing to be written.
pub proof fn law_replacement_of_a_present_node_in_a_file(
    provider_key: &str,
    replacement: &Json,
    file: Option<Vec<u8>>,
    path: &str,
    document: JsonModel,
    revision: Seq<char>,
    entries: Seq<(Seq<char>, JsonModel)>,
    i: int,
    r: Result<Change<Option<Json>>, AppError>,
)
    requires
        file_holds(file, document, revision),
        holds_providers(document, entries),
        !blank(provider_key@),
        replacement@ is Object,
        call_ensures(
            replace_omp_provider_if_present,
            (provider_key, replacement, file, path),
            r,
        ),
    ensures
        stands_at(entries, provider_key@, i) ==> {
            &&& r matches Ok(change)
            &&& change.outcome matches Some(node)
            &&& node@ == entries[i].1
            &&& json_same(entries[i].1, replacement@) ==> change.write is None
            &&& !json_same(entries[i].1, replacement@) ==> writes_providers(
                change.write,
                document,
                revision,
                entries.update(i, (provider_key@, replacement@)),
            )
        },
        stands_nowhere(entries, provider_key@) ==> {
            &&& r matches Ok(change)
            &&& change.outcome is None
            &&& change.write is None
        },
{
    let (key, is) = (provider_key@, replacement@);
    lemma_file_is_read(file, document, revision, path@);
    law_node_is_looked_at_first(file_bytes(file), path@, key, is, is);
    if stands_at(entries, key, i) && !json_same(entries[i].1, is) {
        law_present_node_is_replaced(document, path@, key, is, entries, i);
        lemma_change_is_written(r->Ok_0.write, document, revision);
    }
    if stands_at(entries, key, i) || stands_nowhere(entries, key) {
        law_absent_node_is_not_replaced(document, path@, key, is, entries, i);
    }
}

/// Taking a node out of a file: it is answered, and the file is to be written
/// without it, over the revision that it had, unless another one is expected,
/// which is a conflict. Where there is none nothing is answered and nothing to be
/// written. Taking it out whatever it is, and taking out the expected one, are
/// the same but for the expectation; the latter answers whether there was one.
pub proof fn law_removal_from_a_file(
    provider_key: &str,
    expected: &Json,
    file: Option<Vec<u8>>,
    path: &str,
    document: JsonModel,
    revision: Seq<char>,
    entries: Seq<(Seq<char>, JsonModel)>,
    i: int,
    any: Result<Change<Option<Json>>, AppError>,
    inner: Result<Change<Option<Json>>, AppError>,
    matching: Result<Change<bool>, AppError>,
)
    requires
        file_holds(file, document, revision),
        holds_providers(document, entries),
        call_ensures(remove_omp_provider, (provider_key, file, path), any),
        call_ensures(
            remove_omp_provider_inner,
            (provider_key, Some(expected), file, path),
            inner,
        ),
        call_ensures(
            remove_omp_provider_if_matches,
            (provider_key, expected, file, path),
            matching,
        ),
    ensures
        stands_at(entries, provider_key@, i) ==> {
            &&& any matches Ok(change)
            &&& change.outcome matches Some(node)
            &&& node@ == entries[i].1
            &&& writes_providers(
                change.write,
                document,
                revision,
                providers_without(entries, i),
            )
        },
        stands_at(entries, provider_key@, i) && json_same(entries[i].1, expected@) ==> {
            &&& inner matches Ok(change)
            &&& change.outcome matches Some(node)
            &&& node@ == entries[i].1
            &&& writes_providers(
                change.write,
                document,
                revision,
                providers_without(entries, i),
            )
            &&& matching matches Ok(change)
            &&& change.outcome
            &&& writes_providers(
                change.write,
                document,
                revision,
                providers_without(entries, i),
            )
        },
        stands_at(entries, provider_key@, i) && !json_same(entries[i].1, expected@) ==> {
            let error = ErrorModel::Conflict(
                "OMP provider '"@ + provider_key@ + "' changed outside CC Switch"@,
            );
            &&& inner matches Err(e)
            &&& e@ == error
            &&& matching matches Err(e)
            &&& e@ == error
        },
        stands_nowhere(entries, provider_key@) ==> {
            &&& any matches Ok(change)
            &&& change.outcome is None
            &&& change.write is None
            &&& inner matches Ok(change)
            &&& change.outcome is None
            &&& change.write is None
            &&& matching matches Ok(change)
            &&& !change.outcome
            &&& change.write is None
        },
{
    let key = provider_key@;
    let was = Some(expected@);
    lemma_file_is_read(file, document, revision, path@);
    if stands_at(entries, key, i) {
        law_node_is_taken_out(document, path@, key, None, entries, i);
        lemma_change_is_written(any->Ok_0.write, document, revision);
        if json_same(entries[i].1, expected@) {
            law_node_is_taken_out(document, path@, key, was, entries, i);
            lemma_change_is_written(inner->Ok_0.write, document, revision);
            lemma_change_is_written(matching->Ok_0.write, document, revision);
        }
    }
    if stands_at(entries, key, i) || stands_nowhere(entries, key) {
        law_removal_that_writes_nothing(document, path@, key, was, entries, i);
        law_removal_that_writes_nothing(document, path@, key, None, entries, i);
    }
}

/// Putting a node back into a file: under a free key the file is to be written
/// with the node behind all other providers, over the revision that it had. Under a
/// taken key nothing is to be written, and another node is a conflict.
pub proof fn law_restoring_in_a_file(
    provider_key: &str,
    config: &Json,
    file: Option<Vec<u8>>,
    path: &str,
    document: JsonModel,
    revision: Seq<char>,
    entries: Seq<(Seq<char>, JsonModel)>,
    i: int,
    r: Result<Change<()>, AppError>,
)
    requires
        file_holds(file, document, revision),
        holds_providers(document, entries),
        call_ensures(restore_omp_provider_if_missing, (provider_key, config, file, path), r),
    ensures
        stands_nowhere(entries, provider_key@) ==> {
            &&& r matches Ok(change)
            &&& writes_providers(
                change.write,
                document,
                revision,
                entries.push((provider_key@, config@)),
            )
        },
        stands_at(entries, provider_key@, i) && !json_same(entries[i].1, config@) ==> {
            &&& r matches Err(error)
            &&& error@ == ErrorModel::Conflict(
                "cannot restore OMP provider '"@ + provider_key@
                    + "' because another value now owns the key"@,
            )
        },
        stands_at(entries, provider_key@, i) && json_same(entries[i].1, config@) ==> {
            &&& r matches Ok(change)
            &&& change.write is None
        },
{
    let (key, node) = (provider_key@, config@);
    lemma_file_is_read(file, document, revision, path@);
    if stands_nowhere(entries, key) {
        law_restoring_under_a_free_key(document, path@, key, node, entries);
        lemma_change_is_written(r->Ok_0.write, document, revision);
    }
    if stands_at(entries, key, i) {
        law_restoring_under_a_taken_key(document, path@, key, node, entries, i);
    }
}

/// All three changes were refused with that error.
pub open spec fn all_refused(
    first: Result<Change<bool>, AppError>,
    second: Result<Change<()>, AppError>,
    third: Result<Change<Option<Json>>, AppError>,
    error: ErrorModel,
) -> bool {
    &&& first is Err
    &&& first->Err_0@ == error
    &&& second is Err
    &&& second->Err_0@ == error
    &&& third is Err
    &&& third->Err_0@ == error
}

/// A node under a key of white space alone, or one that is not an object, is
/// neither inserted nor put in the place of another, whatever is in the file, and
/// also where nothing can be read in it.
pub proof fn law_wrong_node_is_refused(
    provider_key: &str,
    config: &Json,
    expected: &Json,
    file: Option<Vec<u8>>,
    path: &str,
    new: Result<Change<bool>, AppError>,
    other: Result<Change<()>, AppError>,
    present: Result<Change<Option<Json>>, AppError>,
)
    requires
        call_ensures(insert_omp_provider, (provider_key, config, file, path), new),
        call_ensures(replace_omp_provider, (provider_key, expected, config, file, path), other),
        call_ensures(
            replace_omp_provider_if_present,
            (provider_key, config, file, path),
            present,
        ),
    ensures
        blank(provider_key@) ==> all_refused(
            new,
            other,
            present,
            ErrorModel::InvalidInput("OMP provider key cannot be empty"@),
        ),
        !blank(provider_key@) && !(config@ is Object) ==> all_refused(
            new,
            other,
            present,
            ErrorModel::InvalidInput("OMP provider configuration must be an object"@),
        ),
{
    law_node_is_looked_at_first(file_bytes(file), path@, provider_key@, config@, expected@);
}

/// No change is made to a file in which nothing can be read, or whose root or whose
/// providers are not an object: an object under a key that is more than white space
/// is neither inserted nor put in the place of another, and no node is taken out or
/// put back. Why is told each time.
pub proof fn law_unreadable_file_is_left_alone(
    provider_key: &str,
    config: &Json,
    expected: &Json,
    file: Option<Vec<u8>>,
    path: &str,
    document: JsonModel,
    revision: Seq<char>,
    i: int,
    error: ErrorModel,
    new: Result<Change<bool>, AppError>,
    other: Result<Change<()>, AppError>,
    present: Result<Change<Option<Json>>, AppError>,
    gone: Result<Change<bool>, AppError>,
    back: Result<Change<()>, AppError>,
    taken: Result<Change<Option<Json>>, AppError>,
)
    requires
        !blank(provider_key@),
        config@ is Object,
        (file is Some && unreadable(file->0@, path@, error)) || (file_holds(
            file,
            document,
            revision,
        ) && (document is Object ==> stands_at(document->Object_0, "providers"@, i) && !(
        document->Object_0[i].1 is Object)) && error == ErrorModel::Config(
            if document is Object {
                "OMP models 'providers' must be an object: "@ + path@
            } else {
                "OMP models root must be an object: "@ + path@
            },
        )),
        call_ensures(insert_omp_provider, (provider_key, config, file, path), new),
        call_ensures(replace_omp_provider, (provider_key, expected, config, file, path), other),
        call_ensures(
            replace_omp_provider_if_present,
            (provider_key, config, file, path),
            present,
        ),
        call_ensures(
            remove_omp_provider_if_matches,
            (provider_key, expected, file, path),
            gone,
        ),
        call_ensures(restore_omp_provider_if_missing, (provider_key, config, file, path), back),
        call_ensures(remove_omp_provider, (provider_key, file, path), taken),
    ensures
        all_refused(new, other, present, error),
        all_refused(gone, back, taken, error),
{
    law_node_is_looked_at_first(file_bytes(file), path@, provider_key@, config@, expected@);
    if file is Some && unreadable(file->0@, path@, error) {
        lemma_file_is_not_read(file->0, path@, error);
    } else {
        lemma_file_is_read(file, document, revision, path@);
        law_document_without_object_is_left_alone(
            document,
            path@,
            provider_key@,
            config@,
            None,
            i,
        );
        law_document_without_object_is_left_alone(
            document,
            path@,
            provider_key@,
            config@,
            Some(expected@),
            i,
        );
    }
}

/// Bytes are handed out to be written exactly if the file has the revision that
/// they are written over, and they are handed out as they are.
pub proof fn law_write_is_confirmed_over_its_revision(
    write: ModelsWrite,
    file: Option<Vec<u8>>,
    path: &str,
    r: Result<Vec<u8>, AppError>,
    s: Result<(), AppError>,
)
    requires
        call_ensures(confirm_models_write, (write, file, path), r),
        call_ensures(ensure_models_revision, (file, path, &write.expected_revision), s),
    ensures
        ({
            let over = match file {
                Some(bytes) => bytes@.len() <= 1_048_576 && write.expected_revision@ == hex(
                    sha256_digest(bytes@),
                ),
                None => write.expected_revision@ == "missing"@,
            };
            &&& r is Ok <==> over
            &&& s is Ok <==> over
            &&& r matches Ok(bytes) ==> bytes@ == write.bytes@
            &&& !over && (file is None || file->0@.len() <= 1_048_576) ==> r->Err_0@
                == ErrorModel::Conflict("OMP models.json changed outside CC Switch: "@ + path@)
                && s->Err_0@ == ErrorModel::Conflict(
                "OMP models.json changed outside CC Switch: "@ + path@,
            )
            &&& file is Some && file->0@.len() > 1_048_576 ==> r->Err_0@
                == ErrorModel::InvalidInput(
                "OMP models"@ + " file exceeds the 1 MiB limit: "@ + path@,
            ) && s->Err_0@ == ErrorModel::InvalidInput(
                "OMP models"@ + " file exceeds the 1 MiB limit: "@ + path@,
            )
        }),
{
}

} // verus!
