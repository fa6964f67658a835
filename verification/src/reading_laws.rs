//! What a caller gets for a provider's request URL, for the defaults of a
//! `settings.json` and for a file's bytes, told by the places at which entries
//! stand, by characters, and by what is returned.

use vstd::prelude::*;
use vstd::utf8::{encode_utf8, encode_utf8_decode_utf8, encode_utf8_valid_utf8, valid_utf8};

use crate::entry_laws::{
    law_equal_arrays, law_equal_objects, law_equal_scalars, law_lookup_finds_nothing_else,
    law_lookup_finds_what_stands, lemma_stands_somewhere, stands_at, stands_nowhere,
};
use crate::error::{AppError, ErrorModel};
use crate::files::{
    check_file_length, parse_json5_value, read_file_limited, read_json5_value, read_text,
};
use crate::json::{distinct_keys, entries_model, json_same, Json, JsonModel};
use crate::json_text::json5_read;
use crate::provider::{
    has_url, member, nonempty_string, nonempty_text, provider_base_url,
};
use crate::revision::{revision, sha256_digest, to_hex};
use crate::settings::{
    defaults_of, optional_string, read_omp_native_defaults, string_entry, DefaultsModel,
    OmpNativeDefaults,
};
use crate::text::{find_char, lemma_first_where, utf8_error};
use crate::text_laws::{digit_value, law_digits_give_the_byte_back, law_first_place_is_found};

verus! {

/// The object has that text, which is not empty, under its first key `baseUrl`.
pub open spec fn url_is(entries: Seq<(Seq<char>, JsonModel)>, url: Seq<char>) -> bool {
    &&& url.len() > 0
    &&& exists|i: int|
        #[trigger] stands_at(entries, "baseUrl"@, i) && entries[i].1 == JsonModel::String(url)
}

/// The object has no text, or an empty one, under its first key `baseUrl`, or has
/// no such key.
pub open spec fn no_url(entries: Seq<(Seq<char>, JsonModel)>) -> bool {
    forall|i: int| #[trigger]
        stands_at(entries, "baseUrl"@, i) ==> match entries[i].1 {
            JsonModel::String(text) => text.len() == 0,
            _ => true,
        }
}

/// What the lookup of the URL comes to.
proof fn lemma_url(entries: Seq<(Seq<char>, JsonModel)>, url: Seq<char>)
    ensures
        url_is(entries, url) ==> nonempty_text(member(JsonModel::Object(entries), "baseUrl"@))
            == Some(url),
        no_url(entries) ==> nonempty_text(member(JsonModel::Object(entries), "baseUrl"@)) is None,
{
    lemma_stands_somewhere(entries, "baseUrl"@);
    if stands_nowhere(entries, "baseUrl"@) {
        law_lookup_finds_nothing_else(entries, "baseUrl"@);
        assert forall|i: int| !#[trigger] stands_at(entries, "baseUrl"@, i) by {}
    } else {
        let k = choose|k: int| stands_at(entries, "baseUrl"@, k);
        law_lookup_finds_what_stands(entries, "baseUrl"@, k);
        assert forall|i: int| #[trigger] stands_at(entries, "baseUrl"@, i) implies i == k by {
            law_lookup_finds_what_stands(entries, "baseUrl"@, i);
        }
    }
}

/// A model that is an object with that URL.
pub open spec fn model_url_is(model: JsonModel, url: Seq<char>) -> bool {
    model is Object && url_is(model->Object_0, url)
}

/// A model that is no object, or an object without a URL.
pub open spec fn model_has_no_url(model: JsonModel) -> bool {
    model is Object ==> no_url(model->Object_0)
}

/// The request URL of a provider is its own, wherever that stands, whatever its
/// models have.
pub proof fn law_own_url_counts(
    config: &Json,
    entries: Seq<(Seq<char>, JsonModel)>,
    url: Seq<char>,
    r: Result<String, AppError>,
)
    requires
        config@ == JsonModel::Object(entries),
        url_is(entries, url),
        call_ensures(provider_base_url, (config,), r),
    ensures
        r matches Ok(found) && found@ == url,
{
    lemma_url(entries, url);
}

/// Where a provider has no URL of its own, that of the first of its models that
/// has one counts, at whatever place.
pub proof fn law_first_url_of_the_models_counts(
    config: &Json,
    entries: Seq<(Seq<char>, JsonModel)>,
    m: int,
    items: Seq<JsonModel>,
    k: int,
    url: Seq<char>,
    r: Result<String, AppError>,
)
    requires
        config@ == JsonModel::Object(entries),
        no_url(entries),
        stands_at(entries, "models"@, m),
        entries[m].1 == JsonModel::Array(items),
        0 <= k < items.len(),
        model_url_is(items[k], url),
        forall|j: int| 0 <= j < k ==> model_has_no_url(#[trigger] items[j]),
        call_ensures(provider_base_url, (config,), r),
    ensures
        r matches Ok(found) && found@ == url,
{
    lemma_url(entries, url);
    law_lookup_finds_what_stands(entries, "models"@, m);
    lemma_url(items[k]->Object_0, url);
    assert forall|j: int| 0 <= j < k implies !has_url()(#[trigger] items[j]) by {
        assert(model_has_no_url(items[j]));
        if items[j] is Object {
            lemma_url(items[j]->Object_0, url);
        }
    }
    lemma_first_where(items, has_url(), k);
}

/// A provider without any URL, its own or that of a model, has no request URL, and
/// neither has what is not an object.
pub proof fn law_no_url_is_made_up(
    config: &Json,
    r: Result<String, AppError>,
)
    requires
        call_ensures(provider_base_url, (config,), r),
    ensures
        !(config@ is Object) ==> r is Err && r->Err_0@ == ErrorModel::InvalidInput(
            "OMP provider configuration must be an object"@,
        ),
        config@ is Object && no_url(config@->Object_0) && (forall|m: int| #[trigger]
            stands_at(config@->Object_0, "models"@, m) ==> (config@->Object_0[m].1 is Array
                ==> forall|k: int|
                0 <= k < config@->Object_0[m].1->Array_0.len() ==> model_has_no_url(
                    #[trigger] config@->Object_0[m].1->Array_0[k],
                ))) ==> r is Err && r->Err_0@ == ErrorModel::InvalidInput(
            "OMP provider has no request URL"@,
        ),
{
    if config@ is Object && no_url(config@->Object_0) && (forall|m: int| #[trigger]
        stands_at(config@->Object_0, "models"@, m) ==> (config@->Object_0[m].1 is Array
            ==> forall|k: int|
            0 <= k < config@->Object_0[m].1->Array_0.len() ==> model_has_no_url(
                #[trigger] config@->Object_0[m].1->Array_0[k],
            ))) {
        let entries = config@->Object_0;
        lemma_url(entries, Seq::empty());
        lemma_stands_somewhere(entries, "models"@);
        if stands_nowhere(entries, "models"@) {
            law_lookup_finds_nothing_else(entries, "models"@);
        } else {
            let m = choose|m: int| stands_at(entries, "models"@, m);
            law_lookup_finds_what_stands(entries, "models"@, m);
            if let JsonModel::Array(items) = entries[m].1 {
                assert forall|j: int| 0 <= j < items.len() implies !has_url()(
                    #[trigger] items[j],
                ) by {
                    assert(model_has_no_url(items[j]));
                    if items[j] is Object {
                        lemma_url(items[j]->Object_0, Seq::empty());
                    }
                }
                lemma_first_where(items, has_url(), items.len() as int);
            }
        }
    }
}

/// A text that is not empty is handed out as it is; nothing else is.
pub proof fn law_text_is_handed_out(value: Option<&Json>, r: Option<&str>)
    requires
        call_ensures(nonempty_string, (value,), r),
    ensures
        match value {
            Some(json) => match json@ {
                JsonModel::String(text) => if text.len() > 0 {
                    r is Some && r->0@ == text
                } else {
                    r is None
                },
                _ => r is None,
            },
            None => r is None,
        },
{
}

/// What a settings object says under a key: a text under the first such key, or
/// nothing where there is none or null.
pub open spec fn says(
    object: Seq<(Seq<char>, JsonModel)>,
    key: Seq<char>,
    text: Option<Seq<char>>,
) -> bool {
    ||| text is None && stands_nowhere(object, key)
    ||| exists|i: int|
        {
            &&& #[trigger] stands_at(object, key, i)
            &&& object[i].1 == match text {
                Some(text) => JsonModel::String(text),
                None => JsonModel::Null,
            }
        }
}

/// A settings object has something else than a text or null under the first such
/// key.
pub open spec fn misspeaks(object: Seq<(Seq<char>, JsonModel)>, key: Seq<char>) -> bool {
    exists|i: int|
        {
            &&& #[trigger] stands_at(object, key, i)
            &&& !(object[i].1 is String)
            &&& !(object[i].1 is Null)
        }
}

/// The error for a setting that is something else than a text or null.
pub open spec fn misspoken(key: Seq<char>, path: Seq<char>) -> ErrorModel {
    ErrorModel::Config("OMP settings '"@ + key + "' must be a string: "@ + path)
}

/// What the lookup of a setting comes to.
proof fn lemma_setting(
    object: Seq<(Seq<char>, JsonModel)>,
    key: Seq<char>,
    text: Option<Seq<char>>,
    path: Seq<char>,
)
    ensures
        says(object, key, text) ==> string_entry(object, key, path) == Ok::<
            Option<Seq<char>>,
            ErrorModel,
        >(text),
        misspeaks(object, key) ==> string_entry(object, key, path) == Err::<
            Option<Seq<char>>,
            ErrorModel,
        >(misspoken(key, path)),
{
    if stands_nowhere(object, key) {
        law_lookup_finds_nothing_else(object, key);
        assert forall|i: int| !#[trigger] stands_at(object, key, i) by {}
    } else {
        lemma_stands_somewhere(object, key);
        let k = choose|k: int| stands_at(object, key, k);
        law_lookup_finds_what_stands(object, key, k);
        assert forall|i: int| #[trigger] stands_at(object, key, i) implies i == k by {
            law_lookup_finds_what_stands(object, key, i);
        }
    }
}

/// A setting is read under its key, wherever it stands, an empty text too.
pub proof fn law_setting_is_read(
    object: &Vec<(String, Json)>,
    key: &str,
    path: &str,
    text: Option<Seq<char>>,
    r: Result<Option<String>, AppError>,
)
    requires
        call_ensures(optional_string, (object, key, path), r),
    ensures
        says(entries_model(object@), key@, text) ==> {
            &&& r matches Ok(found)
            &&& found is Some <==> text is Some
            &&& found matches Some(s) ==> s@ == text->0
        },
        misspeaks(entries_model(object@), key@) ==> r is Err && r->Err_0@ == misspoken(
            key@,
            path@,
        ),
{
    lemma_setting(entries_model(object@), key@, text, path@);
}

/// The defaults are what the settings say: the provider, the model and the session
/// directory, each under its own key.
pub proof fn law_defaults_are_what_the_settings_say(
    value: &Json,
    path: &str,
    object: Seq<(Seq<char>, JsonModel)>,
    provider: Option<Seq<char>>,
    model: Option<Seq<char>>,
    directory: Option<Seq<char>>,
    r: Result<OmpNativeDefaults, AppError>,
)
    requires
        value@ == JsonModel::Object(object),
        says(object, "defaultProvider"@, provider),
        says(object, "defaultModel"@, model),
        says(object, "sessionDir"@, directory),
        call_ensures(defaults_of, (value, path), r),
    ensures
        ({
            &&& r matches Ok(defaults)
            &&& defaults.default_provider is Some <==> provider is Some
            &&& defaults.default_provider matches Some(s) ==> s@ == provider->0
            &&& defaults.default_model is Some <==> model is Some
            &&& defaults.default_model matches Some(s) ==> s@ == model->0
            &&& defaults.session_dir is Some <==> directory is Some
            &&& defaults.session_dir matches Some(s) ==> s@ == directory->0
        }),
{
    lemma_setting(object, "defaultProvider"@, provider, path@);
    lemma_setting(object, "defaultModel"@, model, path@);
    lemma_setting(object, "sessionDir"@, directory, path@);
    let defaults = r->Ok_0;
    assert(defaults@.default_provider == provider);
    assert(defaults@.default_model == model);
    assert(defaults@.session_dir == directory);
}

/// The first setting that is wrong is the one that is told, whatever the others
/// say; settings that are not an object are wrong as a whole.
pub proof fn law_first_wrong_setting_is_told(
    value: &Json,
    path: &str,
    object: Seq<(Seq<char>, JsonModel)>,
    provider: Option<Seq<char>>,
    model: Option<Seq<char>>,
    r: Result<OmpNativeDefaults, AppError>,
)
    requires
        call_ensures(defaults_of, (value, path), r),
    ensures
        !(value@ is Object) ==> r is Err && r->Err_0@ == ErrorModel::Config(
            "OMP settings root must be an object: "@ + path@,
        ),
        value@ == JsonModel::Object(object) && misspeaks(object, "defaultProvider"@) ==> r is Err
            && r->Err_0@ == misspoken("defaultProvider"@, path@),
        value@ == JsonModel::Object(object) && says(object, "defaultProvider"@, provider)
            && misspeaks(object, "defaultModel"@) ==> r is Err && r->Err_0@ == misspoken(
            "defaultModel"@,
            path@,
        ),
        value@ == JsonModel::Object(object) && says(object, "defaultProvider"@, provider) && says(
            object,
            "defaultModel"@,
            model,
        ) && misspeaks(object, "sessionDir"@) ==> r is Err && r->Err_0@ == misspoken(
            "sessionDir"@,
            path@,
        ),
{
    lemma_setting(object, "defaultProvider"@, provider, path@);
    lemma_setting(object, "defaultModel"@, model, path@);
    lemma_setting(object, "sessionDir"@, None, path@);
}

/// Why no value is read in a file with these bytes: they are too many, they encode
/// no text, or JSON5 reads no value in the text.
pub open spec fn no_value(
    bytes: Seq<u8>,
    label: Seq<char>,
    path: Seq<char>,
    error: ErrorModel,
) -> bool {
    ||| bytes.len() > 1_048_576 && error == ErrorModel::InvalidInput(
        label + " file exceeds the 1 MiB limit: "@ + path,
    )
    ||| bytes.len() <= 1_048_576 && no_value_within(bytes, label, path, error)
}

/// Why no value is read in bytes, however many: they encode no text, or JSON5 reads
/// no value in the text.
pub open spec fn no_value_within(
    bytes: Seq<u8>,
    label: Seq<char>,
    path: Seq<char>,
    error: ErrorModel,
) -> bool {
    ||| !valid_utf8(bytes) && error == ErrorModel::Config(
        label + " file must be UTF-8 ("@ + path + "): "@ + utf8_error(bytes),
    )
    ||| exists|text: Seq<char>|
        {
            &&& #[trigger] encode_utf8(text) == bytes
            &&& json5_read(text) is Err
            &&& error == ErrorModel::Config(
                label + " file is not valid JSON/JSONC ("@ + path + "): "@ + json5_read(
                    text,
                )->Err_0,
            )
        }
}

/// What the text of some bytes comes to.
proof fn lemma_value(
    bytes: Seq<u8>,
    label: Seq<char>,
    path: Seq<char>,
    error: ErrorModel,
    text: Seq<char>,
)
    ensures
        encode_utf8(text) == bytes && json5_read(text) is Ok ==> crate::files::json5_value(
            path,
            label,
            bytes,
        ) == Ok::<JsonModel, ErrorModel>(json5_read(text)->Ok_0),
        no_value_within(bytes, label, path, error) ==> crate::files::json5_value(
            path,
            label,
            bytes,
        ) == Err::<JsonModel, ErrorModel>(error),
{
    if encode_utf8(text) == bytes {
        encode_utf8_valid_utf8(text);
        encode_utf8_decode_utf8(text);
    }
    if no_value_within(bytes, label, path, error) && valid_utf8(bytes) {
        let text = choose|text: Seq<char>|
            {
                &&& #[trigger] encode_utf8(text) == bytes
                &&& json5_read(text) is Err
                &&& error == ErrorModel::Config(
                    label + " file is not valid JSON/JSONC ("@ + path + "): "@ + json5_read(
                        text,
                    )->Err_0,
                )
            };
        encode_utf8_decode_utf8(text);
    }
    if !valid_utf8(bytes) {
        assert forall|other: Seq<char>| #[trigger] encode_utf8(other) != bytes by {
            encode_utf8_valid_utf8(other);
        }
    }
}

/// The value in a file of no more than one mebibyte is the one that JSON5 reads in
/// the text that its bytes encode. Where there is none, why is told.
pub proof fn law_value_of_a_file_is_read(
    bytes: Vec<u8>,
    path: &str,
    label: &str,
    text: Seq<char>,
    error: ErrorModel,
    r: Result<Json, AppError>,
    s: Result<Json, AppError>,
)
    requires
        call_ensures(read_json5_value, (bytes, path, label), r),
        call_ensures(parse_json5_value, (path, label, bytes), s),
    ensures
        encode_utf8(text) == bytes@ && json5_read(text) is Ok ==> s is Ok && s->Ok_0@ == json5_read(
            text,
        )->Ok_0,
        encode_utf8(text) == bytes@ && json5_read(text) is Ok && bytes@.len() <= 1_048_576 ==> r
            is Ok && r->Ok_0@ == json5_read(text)->Ok_0,
        no_value(bytes@, label@, path@, error) ==> r is Err && r->Err_0@ == error,
        no_value_within(bytes@, label@, path@, error) ==> s is Err && s->Err_0@ == error,
{
    lemma_value(bytes@, label@, path@, error, text);
}

/// Bytes of no more than one mebibyte are taken as they are, and more are refused;
/// the text of some bytes is the one that they encode.
pub proof fn law_bytes_are_taken_as_they_are(
    bytes: Vec<u8>,
    length: u64,
    label: &str,
    path: &str,
    text: Seq<char>,
    within: Result<(), AppError>,
    taken: Result<Vec<u8>, AppError>,
    read: Result<String, AppError>,
)
    requires
        call_ensures(check_file_length, (length, label, path), within),
        call_ensures(read_file_limited, (bytes, label, path), taken),
        call_ensures(read_text, (bytes, label, path), read),
    ensures
        within is Ok <==> length <= 1_048_576,
        within matches Err(error) ==> error@ == ErrorModel::InvalidInput(
            label@ + " file exceeds the 1 MiB limit: "@ + path@,
        ),
        taken is Ok <==> bytes@.len() <= 1_048_576,
        taken matches Ok(same) ==> same@ == bytes@,
        taken matches Err(error) ==> error@ == ErrorModel::InvalidInput(
            label@ + " file exceeds the 1 MiB limit: "@ + path@,
        ),
        encode_utf8(text) == bytes@ ==> read is Ok && read->Ok_0@ == text,
        !valid_utf8(bytes@) ==> read is Err && read->Err_0@ == ErrorModel::Config(
            label@ + " file must be UTF-8 ("@ + path@ + "): "@ + utf8_error(bytes@),
        ),
{
    if encode_utf8(text) == bytes@ {
        encode_utf8_valid_utf8(text);
        encode_utf8_decode_utf8(text);
    }
}

/// The defaults of a settings file are what its value says; a missing file says
/// nothing, and one in which no value is read tells why.
pub proof fn law_defaults_of_a_file_are_read(
    file: Option<Vec<u8>>,
    path: &str,
    text: Seq<char>,
    object: Seq<(Seq<char>, JsonModel)>,
    provider: Option<Seq<char>>,
    model: Option<Seq<char>>,
    directory: Option<Seq<char>>,
    error: ErrorModel,
    r: Result<OmpNativeDefaults, AppError>,
)
    requires
        call_ensures(read_omp_native_defaults, (file, path), r),
    ensures
        file is None ==> {
            &&& r matches Ok(defaults)
            &&& defaults.default_provider is None
            &&& defaults.default_model is None
            &&& defaults.session_dir is None
        },
        file is Some && file->0@.len() <= 1_048_576 && encode_utf8(text) == file->0@ && json5_read(
            text,
        ) == Ok::<JsonModel, Seq<char>>(JsonModel::Object(object)) && says(
            object,
            "defaultProvider"@,
            provider,
        ) && says(object, "defaultModel"@, model) && says(object, "sessionDir"@, directory) ==> {
            &&& r matches Ok(defaults)
            &&& defaults@ == (DefaultsModel {
                default_provider: provider,
                default_model: model,
                session_dir: directory,
            })
        },
        file is Some && no_value(file->0@, "OMP settings"@, path@, error) ==> r is Err
            && r->Err_0@ == error,
{
    lemma_setting(object, "defaultProvider"@, provider, path@);
    lemma_setting(object, "defaultModel"@, model, path@);
    lemma_setting(object, "sessionDir"@, directory, path@);
    if let Some(bytes) = file {
        lemma_value(bytes@, "OMP settings"@, path@, error, text);
    } else {
        let defaults = r->Ok_0;
        assert(defaults@.default_provider is None);
        assert(defaults@.default_model is None);
        assert(defaults@.session_dir is None);
    }
}

/// Two values are the same exactly if they are equal: scalars as such, arrays
/// element by element, and objects entry by entry, in whatever order.
pub proof fn law_comparison_goes_by_the_values(a: &Json, b: &Json, r: bool)
    requires
        b@ is Object ==> distinct_keys(b@->Object_0),
        call_ensures(Json::same, (a, b), r),
    ensures
        (a@ is Null || a@ is Bool || a@ is String) ==> r == (a@ == b@),
        a@ is Array ==> r == (b@ is Array && b@->Array_0.len() == a@->Array_0.len() && forall|
            i: int,
        |
            0 <= i < a@->Array_0.len() ==> json_same(#[trigger] a@->Array_0[i], b@->Array_0[i])),
        a@ is Object ==> r == (b@ is Object && b@->Object_0.len() == a@->Object_0.len() && forall|
            i: int,
        |
            0 <= i < a@->Object_0.len() ==> exists|j: int|
                0 <= j < b@->Object_0.len() && (#[trigger] b@->Object_0[j]).0 == (
                #[trigger] a@->Object_0[i]).0 && json_same(a@->Object_0[i].1, b@->Object_0[j].1)),
{
    match a@ {
        JsonModel::Array(items) => law_equal_arrays(items, b@),
        JsonModel::Object(entries) => law_equal_objects(entries, b@),
        _ => law_equal_scalars(a@, b@),
    }
}

/// A character is found at its first place, and not found where it does not stand.
pub proof fn law_character_is_found(
    s: &str,
    c: char,
    front: Seq<char>,
    rest: Seq<char>,
    r: Option<usize>,
)
    requires
        call_ensures(find_char, (s, c), r),
    ensures
        s@ == front + seq![c] + rest && !front.contains(c) ==> r is Some && r->0 == front.len(),
        !s@.contains(c) ==> r is None,
{
    if s@ == front + seq![c] + rest && !front.contains(c) {
        law_first_place_is_found(front, c, rest);
    }
    if !s@.contains(c) {
        law_first_place_is_found(s@, c, rest);
    }
}

/// A revision is the digest of the bytes in hexadecimal digits, two for each byte,
/// the high one first, in lower case.
pub proof fn law_revision_spells_the_digest(
    bytes: &[u8],
    r: String,
    sum: &[u8],
    s: String,
    i: int,
)
    requires
        call_ensures(revision, (bytes,), r),
        call_ensures(to_hex, (sum,), s),
        sum@ == sha256_digest(bytes@),
    ensures
        r@ == s@,
        s@.len() == 2 * sum@.len(),
        0 <= i < sum@.len() ==> {
            &&& 0 <= digit_value(s@[2 * i]) < 16
            &&& 0 <= digit_value(s@[2 * i + 1]) < 16
            &&& 16 * digit_value(s@[2 * i]) + digit_value(s@[2 * i + 1]) == sum@[i]
        },
{
    crate::revision::lemma_hex_length(sum@);
    if 0 <= i < sum@.len() {
        law_digits_give_the_byte_back(sum@, i);
    }
}

/// The words of an error are those that it was made with, whatever its kind.
pub proof fn law_error_keeps_its_words(words: String, path: String)
    ensures
        AppError::InvalidInput(words)@ == ErrorModel::InvalidInput(words@),
        AppError::Config(words)@ == ErrorModel::Config(words@),
        AppError::Conflict(words)@ == ErrorModel::Conflict(words@),
        AppError::JsonSerialize(words)@ == ErrorModel::JsonSerialize(words@),
        AppError::InvalidInput(words)@.message() == words@,
        AppError::Config(words)@.message() == words@,
        AppError::Conflict(words)@.message() == words@,
        AppError::JsonSerialize(words)@.message() == words@,
        (AppError::Io { path, message: words })@.message() == words@,
{
}

/// What a value holds is what it was made of.
pub proof fn law_value_holds_what_it_was_made_of(
    b: bool,
    s: String,
    items: Vec<Json>,
    entries: Vec<(String, Json)>,
    i: int,
)
    ensures
        Json::Null@ is Null,
        Json::Bool(b)@ == JsonModel::Bool(b),
        Json::String(s)@ == JsonModel::String(s@),
        ({
            &&& Json::Array(items)@ matches JsonModel::Array(held)
            &&& held.len() == items@.len()
            &&& 0 <= i < held.len() ==> held[i] == items@[i]@
        }),
        ({
            &&& Json::Object(entries)@ matches JsonModel::Object(held)
            &&& held.len() == entries@.len()
            &&& 0 <= i < held.len() ==> held[i] == (entries@[i].0@, entries@[i].1@)
        }),
{
}

} // verus!
