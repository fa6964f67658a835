//! The provider entries of `models.json`.
//!
//! A change is decided on the bytes of the file as they were read. It comes
//! with the bytes to write and with the revision that the file must still have
//! when they are written.

use std::hash::RandomState;

use vstd::prelude::*;
use vstd::utf8::{encode_utf8, encode_utf8_decode_utf8, encode_utf8_valid_utf8};

use crate::error::{AppError, ErrorModel};
use crate::files::{
    file_bytes, json5_file, limited, parse_json5_value, read_file_limited, MAX_OMP_FILE_BYTES,
};
use crate::json::{
    distinct_keys, entries_model, find_key, get_entry, has_key, json_same, json_valid, key_index,
    lemma_lookup_valid, lemma_object_model, lemma_with_entry_valid, lemma_without_entry_valid,
    lookup, remove_entry, set_entry, with_entry, without_entry, Json, JsonModel,
};
use crate::json_text::{json5_safe, json_pretty, write_json};
use crate::provider::{node_error, validate_provider_node};
use crate::provider_map::{empty_providers, insert_provider, provider_entries};
use crate::revision::{revision, revision_of};
use crate::text::{lemma_encode_line_feed, lemma_first_where, lemma_first_where_holds};

verus! {

/// The document in a models file and its revision. Where there is no file the
/// document is an empty object.
pub open spec fn models_document(file: Option<Seq<u8>>, path: Seq<char>) -> Result<
    (JsonModel, Seq<char>),
    ErrorModel,
> {
    match file {
        None => Ok((JsonModel::Object(Seq::empty()), "missing"@)),
        Some(bytes) => match json5_file(bytes, "OMP models"@, path) {
            Err(error) => Err(error),
            Ok(document) => Ok((document, revision_of(bytes))),
        },
    }
}

/// The providers of a document: none where it has no such entry.
pub open spec fn providers_of(document: JsonModel, path: Seq<char>) -> Result<
    Seq<(Seq<char>, JsonModel)>,
    ErrorModel,
> {
    match document {
        JsonModel::Object(root) => match lookup(root, "providers"@) {
            None => Ok(Seq::empty()),
            Some(JsonModel::Object(providers)) => Ok(providers),
            Some(_) => Err(
                ErrorModel::Config("OMP models 'providers' must be an object: "@ + path),
            ),
        },
        _ => Err(ErrorModel::Config("OMP models root must be an object: "@ + path)),
    }
}

/// A document with other providers in it.
pub open spec fn with_providers(
    document: JsonModel,
    providers: Seq<(Seq<char>, JsonModel)>,
) -> JsonModel {
    match document {
        JsonModel::Object(root) => JsonModel::Object(
            with_entry(root, "providers"@, JsonModel::Object(providers)),
        ),
        _ => document,
    }
}

/// The providers in a models file.
pub open spec fn native_providers(file: Option<Seq<u8>>, path: Seq<char>) -> Result<
    Seq<(Seq<char>, JsonModel)>,
    ErrorModel,
> {
    match models_document(file, path) {
        Err(error) => Err(error),
        Ok((document, _)) => providers_of(document, path),
    }
}

/// Reads a models file into its document and its revision.
pub fn read_models_document_with_revision(file: Option<Vec<u8>>, path: &str) -> (r: Result<
    (Json, String),
    AppError,
>)
    ensures
        match r {
            Ok((document, revision)) => {
                &&& models_document(file_bytes(file), path@) == Ok::<
                    (JsonModel, Seq<char>),
                    ErrorModel,
                >((document@, revision@))
                &&& json_valid(document@)
            },
            Err(error) => models_document(file_bytes(file), path@) == Err::<
                (JsonModel, Seq<char>),
                ErrorModel,
            >(error@),
        },
{
    match file {
        None => {
            let entries: Vec<(String, Json)> = Vec::new();
            proof {
                lemma_object_model(entries);
                assert(entries_model(entries@) =~= Seq::empty());
            }
            Ok((Json::Object(entries), "missing".to_owned()))
        },
        Some(bytes) => {
            let bytes: Vec<u8> = match read_file_limited(bytes, "OMP models", path) {
                Ok(bytes) => bytes,
                Err(error) => return Err(error),
            };
            let revision: String = revision(bytes.as_slice());
            match parse_json5_value(path, "OMP models", bytes) {
                Ok(document) => Ok((document, revision)),
                Err(error) => Err(error),
            }
        },
    }
}

/// Reads a models file into its document.
pub fn read_models_document(file: Option<Vec<u8>>, path: &str) -> (r: Result<Json, AppError>)
    ensures
        match (models_document(file_bytes(file), path@), r) {
            (Ok((document, _)), Ok(value)) => value@ == document && json_valid(value@),
            (Err(error), Err(e)) => e@ == error,
            _ => false,
        },
{
    match read_models_document_with_revision(file, path) {
        Ok((document, _)) => Ok(document),
        Err(error) => Err(error),
    }
}

/// The error for a document that is not an object.
fn root_error(path: &str) -> (r: AppError)
    ensures
        r@ == ErrorModel::Config("OMP models root must be an object: "@ + path@),
{
    let mut message: String = "OMP models root must be an object: ".to_owned();
    message.append(path);
    AppError::Config(message)
}

/// The error for providers that are not an object.
fn providers_error(path: &str) -> (r: AppError)
    ensures
        r@ == ErrorModel::Config("OMP models 'providers' must be an object: "@ + path@),
{
    let mut message: String = "OMP models 'providers' must be an object: ".to_owned();
    message.append(path);
    AppError::Config(message)
}

/// The providers of a document, or nothing where it has no such entry.
pub fn providers<'a>(document: &'a Json, path: &str) -> (r: Result<
    Option<&'a Vec<(String, Json)>>,
    AppError,
>)
    ensures
        match r {
            Ok(Some(entries)) => providers_of(document@, path@) == Ok::<
                Seq<(Seq<char>, JsonModel)>,
                ErrorModel,
            >(entries_model(entries@)),
            Ok(None) => providers_of(document@, path@) == Ok::<
                Seq<(Seq<char>, JsonModel)>,
                ErrorModel,
            >(Seq::empty()),
            Err(error) => providers_of(document@, path@) == Err::<
                Seq<(Seq<char>, JsonModel)>,
                ErrorModel,
            >(error@),
        },
{
    match document {
        Json::Object(root) => {
            proof {
                lemma_object_model(*root);
            }
            match get_entry(root, "providers") {
                None => Ok(None),
                Some(Json::Object(providers)) => {
                    proof {
                        lemma_object_model(*providers);
                    }
                    Ok(Some(providers))
                },
                Some(_) => Err(providers_error(path)),
            }
        },
        _ => Err(root_error(path)),
    }
}

/// The providers of a document, to be changed in place. A document that has no
/// such entry gets one.
pub fn providers_mut<'a>(document: &'a mut Json, path: &str) -> (r: Result<
    &'a mut Vec<(String, Json)>,
    AppError,
>)
    ensures
        match r {
            Ok(entries) => {
                &&& providers_of(old(document)@, path@) == Ok::<
                    Seq<(Seq<char>, JsonModel)>,
                    ErrorModel,
                >(entries_model(entries@))
                &&& final(document)@ == with_providers(
                    old(document)@,
                    entries_model(final(entries)@),
                )
            },
            Err(error) => {
                &&& providers_of(old(document)@, path@) == Err::<
                    Seq<(Seq<char>, JsonModel)>,
                    ErrorModel,
                >(error@)
                &&& final(document)@ == old(document)@
            },
        },
{
    match document {
        Json::Object(root) => {
            let ghost before = entries_model(root@);
            proof {
                lemma_object_model(*root);
                lemma_object_model(*final(root));
            }
            let i: usize = match find_key(root, "providers") {
                Some(i) => i,
                None => {
                    root.push(("providers".to_owned(), Json::Object(Vec::new())));
                    root.len() - 1
                },
            };
            let ghost after = entries_model(final(root)@);
            let entry = &mut root[i];
            match &mut entry.1 {
                Json::Object(providers) => {
                    proof {
                        lemma_object_model(*providers);
                        lemma_object_model(*final(providers));
                        lemma_first_where_holds(before, has_key("providers"@));
                        if key_index(before, "providers"@) == before.len() {
                            assert(entries_model(providers@) =~= Seq::empty());
                        }
                        assert(after =~= with_entry(
                            before,
                            "providers"@,
                            Json::Object(*final(providers))@,
                        ));
                    }
                    Ok(providers)
                },
                _ => {
                    assert(after =~= before);
                    Err(providers_error(path))
                },
            }
        },
        _ => Err(root_error(path)),
    }
}

/// Bytes to write to a models file, and the revision that the file must have
/// right before.
#[derive(Debug, PartialEq, Eq)]
pub struct ModelsWrite {
    pub bytes: Vec<u8>,
    pub expected_revision: String,
}

/// The bytes of a models file that holds a document: indented JSON text and a
/// line feed.
pub open spec fn models_bytes(document: JsonModel) -> Seq<u8> {
    encode_utf8(json_pretty(document).push('\n'))
}

impl ModelsWrite {
    /// The bytes are those of the document, to be written over a file with the
    /// revision. Reading them gives the document back, if it is [`json5_safe`]
    /// and the bytes are within the limit.
    pub open spec fn carries(self, document: JsonModel, revision: Seq<char>) -> bool {
        &&& self.bytes@ == models_bytes(document)
        &&& self.expected_revision@ == revision
        &&& json5_safe(document) && self.bytes@.len() <= MAX_OMP_FILE_BYTES ==> forall|
            path: Seq<char>,
        | #[trigger]
            models_document(Some(self.bytes@), path) == Ok::<(JsonModel, Seq<char>), ErrorModel>(
                (document, revision_of(self.bytes@)),
            )
    }
}

/// There is something to write exactly if a document is to be written, and it
/// is that document.
pub open spec fn carried(
    write: Option<ModelsWrite>,
    document: Option<JsonModel>,
    revision: Seq<char>,
) -> bool {
    match (write, document) {
        (Some(write), Some(document)) => write.carries(document, revision),
        (None, None) => true,
        _ => false,
    }
}

/// Turns a document into the bytes to write.
pub fn write_models_document(document: Json, expected_revision: String) -> (r: Result<
    ModelsWrite,
    AppError,
>)
    requires
        json_valid(document@),
    ensures
        r matches Ok(write) && write.carries(document@, expected_revision@),
{
    let ghost model = document@;
    let mut bytes: Vec<u8> = match write_json(document) {
        Ok(bytes) => bytes,
        Err(words) => return Err(AppError::JsonSerialize(words)),
    };
    bytes.push(0x0a);
    proof {
        let text = json_pretty(model).push('\n');
        lemma_encode_line_feed(json_pretty(model));
        encode_utf8_valid_utf8(text);
        encode_utf8_decode_utf8(text);
    }
    Ok(ModelsWrite { bytes, expected_revision })
}

/// The revision that a models file has.
pub open spec fn current_revision(file: Option<Seq<u8>>, path: Seq<char>) -> Result<
    Seq<char>,
    ErrorModel,
> {
    match file {
        None => Ok("missing"@),
        Some(bytes) => match limited(bytes, "OMP models"@, path) {
            Err(error) => Err(error),
            Ok(bytes) => Ok(revision_of(bytes)),
        },
    }
}

/// Why a file that must have a revision may not be written, if it may not.
pub open spec fn revision_error(
    file: Option<Seq<u8>>,
    path: Seq<char>,
    expected_revision: Seq<char>,
) -> Option<ErrorModel> {
    match current_revision(file, path) {
        Err(error) => Some(error),
        Ok(actual) => if actual == expected_revision {
            None
        } else {
            Some(ErrorModel::Conflict("OMP models.json changed outside CC Switch: "@ + path))
        },
    }
}

/// Whether the file still has the revision that it must have.
pub fn ensure_models_revision(
    file: Option<Vec<u8>>,
    path: &str,
    expected_revision: &String,
) -> (r: Result<(), AppError>)
    ensures
        match r {
            Ok(()) => revision_error(file_bytes(file), path@, expected_revision@) is None,
            Err(error) => revision_error(file_bytes(file), path@, expected_revision@) == Some(
                error@,
            ),
        },
{
    let actual: String = match file {
        None => "missing".to_owned(),
        Some(bytes) => match read_file_limited(bytes, "OMP models", path) {
            Ok(bytes) => revision(bytes.as_slice()),
            Err(error) => return Err(error),
        },
    };
    if actual == *expected_revision {
        Ok(())
    } else {
        let mut message: String = "OMP models.json changed outside CC Switch: ".to_owned();
        message.append(path);
        Err(AppError::Conflict(message))
    }
}

/// The bytes to write, if the file, read again, still has the revision that it
/// must have.
pub fn confirm_models_write(write: ModelsWrite, file: Option<Vec<u8>>, path: &str) -> (r: Result<
    Vec<u8>,
    AppError,
>)
    ensures
        match r {
            Ok(bytes) => {
                &&& revision_error(file_bytes(file), path@, write.expected_revision@) is None
                &&& bytes@ == write.bytes@
            },
            Err(error) => revision_error(file_bytes(file), path@, write.expected_revision@)
                == Some(error@),
        },
{
    match ensure_models_revision(file, path, &write.expected_revision) {
        Ok(()) => Ok(write.bytes),
        Err(error) => Err(error),
    }
}

/// What a value holds, if there is one.
pub open spec fn model_of(value: Option<Json>) -> Option<JsonModel> {
    match value {
        Some(value) => Some(value@),
        None => None,
    }
}

/// What the optional value holds that a reference leads to.
pub open spec fn model_at(value: Option<&Json>) -> Option<JsonModel> {
    match value {
        Some(value) => Some(value@),
        None => None,
    }
}

/// The node under a key of a document.
pub fn current_node<'a>(document: &'a Json, provider_key: &str, path: &str) -> (r: Result<
    Option<&'a Json>,
    AppError,
>)
    ensures
        match (providers_of(document@, path@), r) {
            (Ok(entries), Ok(found)) => model_at(found) == lookup(entries, provider_key@),
            (Err(error), Err(e)) => e@ == error,
            _ => false,
        },
{
    match providers(document, path) {
        Ok(Some(entries)) => Ok(get_entry(entries, provider_key)),
        Ok(None) => Ok(None),
        Err(error) => Err(error),
    }
}

/// The providers of a document, in the order in which they stand.
pub fn collect_providers(document: &Json, path: &str) -> (r: Result<
    indexmap::IndexMap<String, Json, RandomState>,
    AppError,
>)
    requires
        json_valid(document@),
    ensures
        match (providers_of(document@, path@), r) {
            (Ok(entries), Ok(map)) => provider_entries(map) == entries && distinct_keys(entries),
            (Err(error), Err(e)) => e@ == error,
            _ => false,
        },
{
    let mut map: indexmap::IndexMap<String, Json, RandomState> = empty_providers();
    match providers(document, path) {
        Err(error) => Err(error),
        Ok(None) => Ok(map),
        Ok(Some(entries)) => {
            let ghost all = entries_model(entries@);
            proof {
                lemma_providers_valid(document@, path@);
            }
            let mut i: usize = 0;
            while i < entries.len()
                invariant
                    i <= entries@.len(),
                    all == entries_model(entries@),
                    distinct_keys(all),
                    provider_entries(map) == all.take(i as int),
                decreases entries@.len() - i,
            {
                proof {
                    let done = all.take(i as int);
                    assert forall|j: int| 0 <= j < done.len() implies !has_key::<JsonModel>(
                        all[i as int].0,
                    )(#[trigger] done[j]) by {
                        assert(done[j] == all[j]);
                    }
                    lemma_first_where(done, has_key(all[i as int].0), i as int);
                    assert(all.take(i + 1) =~= done.push(all[i as int]));
                }
                insert_provider(&mut map, entries[i].0.clone(), entries[i].1.clone());
                i = i + 1;
            }
            assert(all.take(i as int) =~= all);
            Ok(map)
        },
    }
}

/// Reads the providers of a models file, in the order in which they stand.
pub fn read_omp_native_providers(file: Option<Vec<u8>>, path: &str) -> (r: Result<
    indexmap::IndexMap<String, Json, RandomState>,
    AppError,
>)
    ensures
        match (native_providers(file_bytes(file), path@), r) {
            (Ok(entries), Ok(map)) => provider_entries(map) == entries && distinct_keys(entries),
            (Err(error), Err(e)) => e@ == error,
            _ => false,
        },
{
    match read_models_document(file, path) {
        Ok(document) => collect_providers(&document, path),
        Err(error) => Err(error),
    }
}

/// Reads one provider of a models file.
pub fn read_omp_native_provider(
    provider_key: &str,
    file: Option<Vec<u8>>,
    path: &str,
) -> (r: Result<Option<Json>, AppError>)
    ensures
        match (native_providers(file_bytes(file), path@), r) {
            (Ok(entries), Ok(found)) => model_of(found) == lookup(entries, provider_key@),
            (Err(error), Err(e)) => e@ == error,
            _ => false,
        },
        r matches Ok(Some(found)) ==> json_valid(found@),
{
    let document: Json = match read_models_document(file, path) {
        Ok(document) => document,
        Err(error) => return Err(error),
    };
    match current_node(&document, provider_key, path) {
        Ok(Some(found)) => {
            proof {
                lemma_providers_valid(document@, path@);
                lemma_lookup_valid(providers_of(document@, path@)->Ok_0, provider_key@);
            }
            Ok(Some(found.clone()))
        },
        Ok(None) => Ok(None),
        Err(error) => Err(error),
    }
}

/// Whether a models file has a provider.
pub fn omp_provider_exists(provider_key: &str, file: Option<Vec<u8>>, path: &str) -> (r: Result<
    bool,
    AppError,
>)
    ensures
        match (native_providers(file_bytes(file), path@), r) {
            (Ok(entries), Ok(found)) => found == (lookup(entries, provider_key@) is Some),
            (Err(error), Err(e)) => e@ == error,
            _ => false,
        },
{
    let document: Json = match read_models_document(file, path) {
        Ok(document) => document,
        Err(error) => return Err(error),
    };
    match current_node(&document, provider_key, path) {
        Ok(found) => Ok(found.is_some()),
        Err(error) => Err(error),
    }
}

/// What a request is answered, and what is to be written for it, if anything.
#[derive(Debug)]
pub struct Change<T> {
    pub outcome: T,
    pub write: Option<ModelsWrite>,
}

/// What a request is answered, and the document that it leads to, if another
/// one.
#[derive(Debug)]
pub struct Decision<T> {
    pub outcome: T,
    pub document: Option<Json>,
}

/// What a [`Decision`] holds.
pub struct Verdict<T> {
    pub outcome: T,
    pub document: Option<JsonModel>,
}

/// The error for a key that another node already has.
pub open spec fn key_taken(provider_key: Seq<char>) -> ErrorModel {
    ErrorModel::InvalidInput(
        "OMP provider key '"@ + provider_key + "' already exists in models.json"@,
    )
}

/// The error for a node that is gone.
pub open spec fn no_longer_present(provider_key: Seq<char>) -> ErrorModel {
    ErrorModel::Conflict(
        "OMP provider '"@ + provider_key + "' is no longer present in models.json"@,
    )
}

/// The error for a node that is not the expected one.
pub open spec fn changed_outside(provider_key: Seq<char>) -> ErrorModel {
    ErrorModel::Conflict("OMP provider '"@ + provider_key + "' changed outside CC Switch"@)
}

/// The error for a key under which another node now stands.
pub open spec fn cannot_restore(provider_key: Seq<char>) -> ErrorModel {
    ErrorModel::Conflict(
        "cannot restore OMP provider '"@ + provider_key
            + "' because another value now owns the key"@,
    )
}

/// How a node is inserted into a document: under a new key only, or not at all
/// where it stands there already. The answer is whether it was not there yet.
pub open spec fn insert_verdict(
    document: JsonModel,
    path: Seq<char>,
    provider_key: Seq<char>,
    config: JsonModel,
) -> Result<Verdict<bool>, ErrorModel> {
    match providers_of(document, path) {
        Err(error) => Err(error),
        Ok(entries) => match lookup(entries, provider_key) {
            Some(current) => if json_same(current, config) {
                Ok(Verdict { outcome: false, document: None })
            } else {
                Err(key_taken(provider_key))
            },
            None => Ok(
                Verdict {
                    outcome: true,
                    document: Some(
                        with_providers(document, with_entry(entries, provider_key, config)),
                    ),
                },
            ),
        },
    }
}

/// How a node of a document is replaced: only if it is the expected one, and
/// not at all where it is the replacement already.
pub open spec fn replace_verdict(
    document: JsonModel,
    path: Seq<char>,
    provider_key: Seq<char>,
    expected: JsonModel,
    replacement: JsonModel,
) -> Result<Verdict<()>, ErrorModel> {
    match providers_of(document, path) {
        Err(error) => Err(error),
        Ok(entries) => match lookup(entries, provider_key) {
            None => Err(no_longer_present(provider_key)),
            Some(current) => if !json_same(current, expected) {
                Err(changed_outside(provider_key))
            } else if json_same(current, replacement) {
                Ok(Verdict { outcome: (), document: None })
            } else {
                Ok(
                    Verdict {
                        outcome: (),
                        document: Some(
                            with_providers(
                                document,
                                with_entry(entries, provider_key, replacement),
                            ),
                        ),
                    },
                )
            },
        },
    }
}

/// How a node of a document is replaced, whatever it is, if there is one: the
/// answer is the node before.
pub open spec fn replace_present_verdict(
    document: JsonModel,
    path: Seq<char>,
    provider_key: Seq<char>,
    replacement: JsonModel,
) -> Result<Verdict<Option<JsonModel>>, ErrorModel> {
    match providers_of(document, path) {
        Err(error) => Err(error),
        Ok(entries) => match lookup(entries, provider_key) {
            None => Ok(Verdict { outcome: None, document: None }),
            Some(current) => if json_same(current, replacement) {
                Ok(Verdict { outcome: Some(current), document: None })
            } else {
                Ok(
                    Verdict {
                        outcome: Some(current),
                        document: Some(
                            with_providers(
                                document,
                                with_entry(entries, provider_key, replacement),
                            ),
                        ),
                    },
                )
            },
        },
    }
}

/// How a node is taken out of a document, if there is one and it is the
/// expected one, where one is expected: the answer is that node.
pub open spec fn remove_verdict(
    document: JsonModel,
    path: Seq<char>,
    provider_key: Seq<char>,
    expected: Option<JsonModel>,
) -> Result<Verdict<Option<JsonModel>>, ErrorModel> {
    match providers_of(document, path) {
        Err(error) => Err(error),
        Ok(entries) => match lookup(entries, provider_key) {
            None => Ok(Verdict { outcome: None, document: None }),
            Some(current) => if expected is Some && !json_same(current, expected->0) {
                Err(changed_outside(provider_key))
            } else {
                Ok(
                    Verdict {
                        outcome: Some(current),
                        document: Some(
                            with_providers(document, without_entry(entries, provider_key)),
                        ),
                    },
                )
            },
        },
    }
}

/// How a node is put back into a document: under a key that is free, or not at
/// all where it stands there already.
pub open spec fn restore_verdict(
    document: JsonModel,
    path: Seq<char>,
    provider_key: Seq<char>,
    config: JsonModel,
) -> Result<Verdict<()>, ErrorModel> {
    match providers_of(document, path) {
        Err(error) => Err(error),
        Ok(entries) => match lookup(entries, provider_key) {
            Some(current) => if json_same(current, config) {
                Ok(Verdict { outcome: (), document: None })
            } else {
                Err(cannot_restore(provider_key))
            },
            None => Ok(
                Verdict {
                    outcome: (),
                    document: Some(
                        with_providers(document, with_entry(entries, provider_key, config)),
                    ),
                },
            ),
        },
    }
}

/// A verdict on the document of a file, with the revision of that file.
pub open spec fn at_revision<T>(
    verdict: Result<Verdict<T>, ErrorModel>,
    revision: Seq<char>,
) -> Result<(Verdict<T>, Seq<char>), ErrorModel> {
    match verdict {
        Ok(verdict) => Ok((verdict, revision)),
        Err(error) => Err(error),
    }
}

/// How a node is inserted into a models file. The node is looked at before the
/// file is.
pub open spec fn inserted(
    file: Option<Seq<u8>>,
    path: Seq<char>,
    provider_key: Seq<char>,
    config: JsonModel,
) -> Result<(Verdict<bool>, Seq<char>), ErrorModel> {
    match (node_error(provider_key, config), models_document(file, path)) {
        (Some(error), _) => Err(error),
        (None, Err(error)) => Err(error),
        (None, Ok((document, revision))) => at_revision(
            insert_verdict(document, path, provider_key, config),
            revision,
        ),
    }
}

/// How a node of a models file is replaced. The replacement is looked at before
/// the file is.
pub open spec fn replaced(
    file: Option<Seq<u8>>,
    path: Seq<char>,
    provider_key: Seq<char>,
    expected: JsonModel,
    replacement: JsonModel,
) -> Result<(Verdict<()>, Seq<char>), ErrorModel> {
    match (node_error(provider_key, replacement), models_document(file, path)) {
        (Some(error), _) => Err(error),
        (None, Err(error)) => Err(error),
        (None, Ok((document, revision))) => at_revision(
            replace_verdict(document, path, provider_key, expected, replacement),
            revision,
        ),
    }
}

/// How a node of a models file is replaced, whatever it is, if there is one.
/// The replacement is looked at before the file is.
pub open spec fn replaced_if_present(
    file: Option<Seq<u8>>,
    path: Seq<char>,
    provider_key: Seq<char>,
    replacement: JsonModel,
) -> Result<(Verdict<Option<JsonModel>>, Seq<char>), ErrorModel> {
    match (node_error(provider_key, replacement), models_document(file, path)) {
        (Some(error), _) => Err(error),
        (None, Err(error)) => Err(error),
        (None, Ok((document, revision))) => at_revision(
            replace_present_verdict(document, path, provider_key, replacement),
            revision,
        ),
    }
}

/// How a node is taken out of a models file.
pub open spec fn removed(
    file: Option<Seq<u8>>,
    path: Seq<char>,
    provider_key: Seq<char>,
    expected: Option<JsonModel>,
) -> Result<(Verdict<Option<JsonModel>>, Seq<char>), ErrorModel> {
    match models_document(file, path) {
        Err(error) => Err(error),
        Ok((document, revision)) => at_revision(
            remove_verdict(document, path, provider_key, expected),
            revision,
        ),
    }
}

/// How a node is put back into a models file.
pub open spec fn restored(
    file: Option<Seq<u8>>,
    path: Seq<char>,
    provider_key: Seq<char>,
    config: JsonModel,
) -> Result<(Verdict<()>, Seq<char>), ErrorModel> {
    match models_document(file, path) {
        Err(error) => Err(error),
        Ok((document, revision)) => at_revision(
            restore_verdict(document, path, provider_key, config),
            revision,
        ),
    }
}

/// The providers of a valid document are valid.
pub proof fn lemma_providers_valid(document: JsonModel, path: Seq<char>)
    requires
        json_valid(document),
    ensures
        providers_of(document, path) matches Ok(entries) ==> json_valid(
            JsonModel::Object(entries),
        ),
{
    if let JsonModel::Object(root) = document {
        lemma_lookup_valid(root, "providers"@);
    }
}

/// A valid document with other providers in it, valid ones, is valid.
pub proof fn lemma_with_providers_valid(
    document: JsonModel,
    providers: Seq<(Seq<char>, JsonModel)>,
)
    requires
        json_valid(document),
        json_valid(JsonModel::Object(providers)),
    ensures
        json_valid(with_providers(document, providers)),
{
    if let JsonModel::Object(root) = document {
        lemma_with_entry_valid(root, "providers"@, JsonModel::Object(providers));
    }
}

/// The text `before`, a key, and the text `after`.
fn around(before: &str, key: &str, after: &str) -> (r: String)
    ensures
        r@ == before@ + key@ + after@,
{
    let mut message: String = before.to_owned();
    message.append(key);
    message.append(after);
    message
}

/// The document with a node put under a key.
fn document_with_node(document: Json, provider_key: &str, config: &Json, path: &str) -> (r: Result<
    Json,
    AppError,
>)
    requires
        json_valid(document@),
        json_valid(config@),
        providers_of(document@, path@) is Ok,
    ensures
        r matches Ok(after) && json_valid(after@) && after@ == with_providers(
            document@,
            with_entry(providers_of(document@, path@)->Ok_0, provider_key@, config@),
        ),
{
    let ghost before = document@;
    let ghost entries = providers_of(before, path@)->Ok_0;
    let mut document: Json = document;
    match providers_mut(&mut document, path) {
        Ok(providers) => {
            set_entry(providers, provider_key, config.clone());
        },
        Err(error) => return Err(error),
    }
    proof {
        lemma_providers_valid(before, path@);
        lemma_with_entry_valid(entries, provider_key@, config@);
        lemma_with_providers_valid(before, with_entry(entries, provider_key@, config@));
    }
    Ok(document)
}

/// Whether a decision leads to the document of a verdict, a valid one.
pub open spec fn leads_to(document: Option<Json>, model: Option<JsonModel>) -> bool {
    &&& model_of(document) == model
    &&& document matches Some(document) ==> json_valid(document@)
}

/// Inserts a node into a document, under a new key.
pub fn insert_into_document(document: Json, provider_key: &str, config: &Json, path: &str) -> (r:
    Result<Decision<bool>, AppError>)
    requires
        json_valid(document@),
        json_valid(config@),
    ensures
        match (insert_verdict(document@, path@, provider_key@, config@), r) {
            (Ok(verdict), Ok(decision)) => decision.outcome == verdict.outcome && leads_to(
                decision.document,
                verdict.document,
            ),
            (Err(error), Err(e)) => e@ == error,
            _ => false,
        },
{
    match current_node(&document, provider_key, path) {
        Err(error) => return Err(error),
        Ok(Some(current)) => {
            if current.same(config) {
                return Ok(Decision { outcome: false, document: None });
            }
            return Err(
                AppError::InvalidInput(
                    around("OMP provider key '", provider_key, "' already exists in models.json"),
                ),
            );
        },
        Ok(None) => {},
    }
    match document_with_node(document, provider_key, config, path) {
        Ok(after) => Ok(Decision { outcome: true, document: Some(after) }),
        Err(error) => Err(error),
    }
}

/// Replaces a node of a document that is the expected one.
pub fn replace_in_document(
    document: Json,
    provider_key: &str,
    expected: &Json,
    replacement: &Json,
    path: &str,
) -> (r: Result<Decision<()>, AppError>)
    requires
        json_valid(document@),
        json_valid(replacement@),
    ensures
        match (
            replace_verdict(document@, path@, provider_key@, expected@, replacement@),
            r,
        ) {
            (Ok(verdict), Ok(decision)) => leads_to(decision.document, verdict.document),
            (Err(error), Err(e)) => e@ == error,
            _ => false,
        },
{
    match current_node(&document, provider_key, path) {
        Err(error) => return Err(error),
        Ok(None) => {
            return Err(
                AppError::Conflict(
                    around(
                        "OMP provider '",
                        provider_key,
                        "' is no longer present in models.json",
                    ),
                ),
            );
        },
        Ok(Some(current)) => {
            if !current.same(expected) {
                return Err(
                    AppError::Conflict(
                        around("OMP provider '", provider_key, "' changed outside CC Switch"),
                    ),
                );
            }
            if current.same(replacement) {
                return Ok(Decision { outcome: (), document: None });
            }
        },
    }
    match document_with_node(document, provider_key, replacement, path) {
        Ok(after) => Ok(Decision { outcome: (), document: Some(after) }),
        Err(error) => Err(error),
    }
}

/// Replaces a node of a document, whatever it is, if there is one. The answer
/// is the node before.
pub fn replace_present_in_document(
    document: Json,
    provider_key: &str,
    replacement: &Json,
    path: &str,
) -> (r: Result<Decision<Option<Json>>, AppError>)
    requires
        json_valid(document@),
        json_valid(replacement@),
    ensures
        match (replace_present_verdict(document@, path@, provider_key@, replacement@), r) {
            (Ok(verdict), Ok(decision)) => model_of(decision.outcome) == verdict.outcome
                && leads_to(decision.document, verdict.document),
            (Err(error), Err(e)) => e@ == error,
            _ => false,
        },
{
    let current: Json = match current_node(&document, provider_key, path) {
        Err(error) => return Err(error),
        Ok(None) => return Ok(Decision { outcome: None, document: None }),
        Ok(Some(current)) => current.clone(),
    };
    if current.same(replacement) {
        return Ok(Decision { outcome: Some(current), document: None });
    }
    match document_with_node(document, provider_key, replacement, path) {
        Ok(after) => Ok(Decision { outcome: Some(current), document: Some(after) }),
        Err(error) => Err(error),
    }
}

/// Takes a node out of a document, if there is one and it is the expected one,
/// where one is expected. The answer is that node.
pub fn remove_from_document(
    document: Json,
    provider_key: &str,
    expected: Option<&Json>,
    path: &str,
) -> (r: Result<Decision<Option<Json>>, AppError>)
    requires
        json_valid(document@),
    ensures
        match (remove_verdict(document@, path@, provider_key@, model_at(expected)), r) {
            (Ok(verdict), Ok(decision)) => model_of(decision.outcome) == verdict.outcome
                && leads_to(decision.document, verdict.document),
            (Err(error), Err(e)) => e@ == error,
            _ => false,
        },
{
    let ghost before = document@;
    let current: Json = match current_node(&document, provider_key, path) {
        Err(error) => return Err(error),
        Ok(None) => return Ok(Decision { outcome: None, document: None }),
        Ok(Some(current)) => current.clone(),
    };
    if let Some(expected) = expected {
        if !current.same(expected) {
            return Err(
                AppError::Conflict(
                    around("OMP provider '", provider_key, "' changed outside CC Switch"),
                ),
            );
        }
    }
    let mut document: Json = document;
    match providers_mut(&mut document, path) {
        Ok(providers) => {
            remove_entry(providers, provider_key);
        },
        Err(error) => return Err(error),
    }
    proof {
        let entries = providers_of(before, path@)->Ok_0;
        lemma_providers_valid(before, path@);
        lemma_without_entry_valid(entries, provider_key@);
        lemma_with_providers_valid(before, without_entry(entries, provider_key@));
    }
    Ok(Decision { outcome: Some(current), document: Some(document) })
}

/// Puts a node back into a document, under a key that is free.
pub fn restore_in_document(document: Json, provider_key: &str, config: &Json, path: &str) -> (r:
    Result<Decision<()>, AppError>)
    requires
        json_valid(document@),
        json_valid(config@),
    ensures
        match (restore_verdict(document@, path@, provider_key@, config@), r) {
            (Ok(verdict), Ok(decision)) => leads_to(decision.document, verdict.document),
            (Err(error), Err(e)) => e@ == error,
            _ => false,
        },
{
    match current_node(&document, provider_key, path) {
        Err(error) => return Err(error),
        Ok(Some(current)) => {
            if current.same(config) {
                return Ok(Decision { outcome: (), document: None });
            }
            return Err(
                AppError::Conflict(
                    around(
                        "cannot restore OMP provider '",
                        provider_key,
                        "' because another value now owns the key",
                    ),
                ),
            );
        },
        Ok(None) => {},
    }
    match document_with_node(document, provider_key, config, path) {
        Ok(after) => Ok(Decision { outcome: (), document: Some(after) }),
        Err(error) => Err(error),
    }
}

/// What is to be written for a decision on a file with the revision.
fn change_for<T>(decision: Decision<T>, revision: String) -> (r: Result<Change<T>, AppError>)
    requires
        decision.document matches Some(document) ==> json_valid(document@),
    ensures
        r matches Ok(change) && change.outcome == decision.outcome && carried(
            change.write,
            model_of(decision.document),
            revision@,
        ),
{
    match decision.document {
        None => Ok(Change { outcome: decision.outcome, write: None }),
        Some(document) => match write_models_document(document, revision) {
            Ok(write) => Ok(Change { outcome: decision.outcome, write: Some(write) }),
            Err(error) => Err(error),
        },
    }
}

/// Inserts a node into a models file, under a new key. The answer is whether it
/// was not there yet.
pub fn insert_omp_provider(
    provider_key: &str,
    config: &Json,
    file: Option<Vec<u8>>,
    path: &str,
) -> (r: Result<Change<bool>, AppError>)
    requires
        json_valid(config@),
    ensures
        match (inserted(file_bytes(file), path@, provider_key@, config@), r) {
            (Ok((verdict, revision)), Ok(change)) => change.outcome == verdict.outcome && carried(
                change.write,
                verdict.document,
                revision,
            ),
            (Err(error), Err(e)) => e@ == error,
            _ => false,
        },
{
    match validate_provider_node(provider_key, config) {
        Ok(()) => {},
        Err(error) => return Err(error),
    }
    let (document, revision) = match read_models_document_with_revision(file, path) {
        Ok(read) => read,
        Err(error) => return Err(error),
    };
    match insert_into_document(document, provider_key, config, path) {
        Ok(decision) => change_for(decision, revision),
        Err(error) => Err(error),
    }
}

/// Replaces a node of a models file that is the expected one.
pub fn replace_omp_provider(
    provider_key: &str,
    expected: &Json,
    replacement: &Json,
    file: Option<Vec<u8>>,
    path: &str,
) -> (r: Result<Change<()>, AppError>)
    requires
        json_valid(replacement@),
    ensures
        match (replaced(file_bytes(file), path@, provider_key@, expected@, replacement@), r) {
            (Ok((verdict, revision)), Ok(change)) => carried(
                change.write,
                verdict.document,
                revision,
            ),
            (Err(error), Err(e)) => e@ == error,
            _ => false,
        },
{
    match validate_provider_node(provider_key, replacement) {
        Ok(()) => {},
        Err(error) => return Err(error),
    }
    let (document, revision) = match read_models_document_with_revision(file, path) {
        Ok(read) => read,
        Err(error) => return Err(error),
    };
    match replace_in_document(document, provider_key, expected, replacement, path) {
        Ok(decision) => change_for(decision, revision),
        Err(error) => Err(error),
    }
}

/// Replaces a node of a models file, whatever it is, if there is one. The
/// answer is the node before.
pub fn replace_omp_provider_if_present(
    provider_key: &str,
    replacement: &Json,
    file: Option<Vec<u8>>,
    path: &str,
) -> (r: Result<Change<Option<Json>>, AppError>)
    requires
        json_valid(replacement@),
    ensures
        match (replaced_if_present(file_bytes(file), path@, provider_key@, replacement@), r) {
            (Ok((verdict, revision)), Ok(change)) => model_of(change.outcome) == verdict.outcome
                && carried(change.write, verdict.document, revision),
            (Err(error), Err(e)) => e@ == error,
            _ => false,
        },
{
    match validate_provider_node(provider_key, replacement) {
        Ok(()) => {},
        Err(error) => return Err(error),
    }
    let (document, revision) = match read_models_document_with_revision(file, path) {
        Ok(read) => read,
        Err(error) => return Err(error),
    };
    match replace_present_in_document(document, provider_key, replacement, path) {
        Ok(decision) => change_for(decision, revision),
        Err(error) => Err(error),
    }
}

/// Takes a node out of a models file, if there is one. The answer is that node.
pub fn remove_omp_provider(provider_key: &str, file: Option<Vec<u8>>, path: &str) -> (r: Result<
    Change<Option<Json>>,
    AppError,
>)
    ensures
        match (removed(file_bytes(file), path@, provider_key@, None), r) {
            (Ok((verdict, revision)), Ok(change)) => model_of(change.outcome) == verdict.outcome
                && carried(change.write, verdict.document, revision),
            (Err(error), Err(e)) => e@ == error,
            _ => false,
        },
{
    remove_omp_provider_inner(provider_key, None, file, path)
}

/// Takes a node out of a models file that is the expected one, if there is one.
/// The answer is whether there was one.
pub fn remove_omp_provider_if_matches(
    provider_key: &str,
    expected: &Json,
    file: Option<Vec<u8>>,
    path: &str,
) -> (r: Result<Change<bool>, AppError>)
    ensures
        match (removed(file_bytes(file), path@, provider_key@, Some(expected@)), r) {
            (Ok((verdict, revision)), Ok(change)) => change.outcome == (verdict.outcome is Some)
                && carried(change.write, verdict.document, revision),
            (Err(error), Err(e)) => e@ == error,
            _ => false,
        },
{
    match remove_omp_provider_inner(provider_key, Some(expected), file, path) {
        Ok(change) => Ok(Change { outcome: change.outcome.is_some(), write: change.write }),
        Err(error) => Err(error),
    }
}

/// Takes a node out of a models file, if there is one and it is the expected
/// one, where one is expected. The answer is that node.
pub fn remove_omp_provider_inner(
    provider_key: &str,
    expected: Option<&Json>,
    file: Option<Vec<u8>>,
    path: &str,
) -> (r: Result<Change<Option<Json>>, AppError>)
    ensures
        match (removed(file_bytes(file), path@, provider_key@, model_at(expected)), r) {
            (Ok((verdict, revision)), Ok(change)) => model_of(change.outcome) == verdict.outcome
                && carried(change.write, verdict.document, revision),
            (Err(error), Err(e)) => e@ == error,
            _ => false,
        },
{
    let (document, revision) = match read_models_document_with_revision(file, path) {
        Ok(read) => read,
        Err(error) => return Err(error),
    };
    match remove_from_document(document, provider_key, expected, path) {
        Ok(decision) => change_for(decision, revision),
        Err(error) => Err(error),
    }
}

/// Puts a node back into a models file, under a key that is free.
pub fn restore_omp_provider_if_missing(
    provider_key: &str,
    config: &Json,
    file: Option<Vec<u8>>,
    path: &str,
) -> (r: Result<Change<()>, AppError>)
    requires
        json_valid(config@),
    ensures
        match (restored(file_bytes(file), path@, provider_key@, config@), r) {
            (Ok((verdict, revision)), Ok(change)) => carried(
                change.write,
                verdict.document,
                revision,
            ),
            (Err(error), Err(e)) => e@ == error,
            _ => false,
        },
{
    let (document, revision) = match read_models_document_with_revision(file, path) {
        Ok(read) => read,
        Err(error) => return Err(error),
    };
    match restore_in_document(document, provider_key, config, path) {
        Ok(decision) => change_for(decision, revision),
        Err(error) => Err(error),
    }
}

} // verus!
