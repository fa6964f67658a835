//! The defaults of a `settings.json`.

use vstd::prelude::*;

use crate::error::{AppError, ErrorModel};
use crate::files::{file_bytes, json5_file, read_json5_value};
use crate::json::{entries_model, get_entry, lemma_object_model, lookup, Json, JsonModel};

verus! {

/// What a `settings.json` chooses by default.
#[derive(Debug, PartialEq, Eq)]
pub struct OmpNativeDefaults {
    pub default_provider: Option<String>,
    pub default_model: Option<String>,
    pub session_dir: Option<String>,
}

/// What an [`OmpNativeDefaults`] says.
pub struct DefaultsModel {
    pub default_provider: Option<Seq<char>>,
    pub default_model: Option<Seq<char>>,
    pub session_dir: Option<Seq<char>>,
}

/// The text of an optional string.
pub open spec fn optional_text(value: Option<String>) -> Option<Seq<char>> {
    match value {
        Some(s) => Some(s@),
        None => None,
    }
}

impl View for OmpNativeDefaults {
    type V = DefaultsModel;

    open spec fn view(&self) -> DefaultsModel {
        DefaultsModel {
            default_provider: optional_text(self.default_provider),
            default_model: optional_text(self.default_model),
            session_dir: optional_text(self.session_dir),
        }
    }
}

impl Default for OmpNativeDefaults {
    fn default() -> (r: OmpNativeDefaults)
        ensures
            r@ == (DefaultsModel { default_provider: None, default_model: None, session_dir: None }),
    {
        OmpNativeDefaults { default_provider: None, default_model: None, session_dir: None }
    }
}

/// The string under `key`, if there is one that is not null.
pub open spec fn string_entry(
    object: Seq<(Seq<char>, JsonModel)>,
    key: Seq<char>,
    path: Seq<char>,
) -> Result<Option<Seq<char>>, ErrorModel> {
    match lookup(object, key) {
        None => Ok(None),
        Some(JsonModel::Null) => Ok(None),
        Some(JsonModel::String(s)) => Ok(Some(s)),
        Some(_) => Err(
            ErrorModel::Config("OMP settings '"@ + key + "' must be a string: "@ + path),
        ),
    }
}

/// The defaults that the value of a settings file chooses. Of several errors the
/// first one counts.
pub open spec fn defaults_in(value: JsonModel, path: Seq<char>) -> Result<
    DefaultsModel,
    ErrorModel,
> {
    match value {
        JsonModel::Object(object) => match (
            string_entry(object, "defaultProvider"@, path),
            string_entry(object, "defaultModel"@, path),
            string_entry(object, "sessionDir"@, path),
        ) {
            (Err(error), _, _) => Err(error),
            (Ok(_), Err(error), _) => Err(error),
            (Ok(_), Ok(_), Err(error)) => Err(error),
            (Ok(default_provider), Ok(default_model), Ok(session_dir)) => Ok(
                DefaultsModel { default_provider, default_model, session_dir },
            ),
        },
        _ => Err(ErrorModel::Config("OMP settings root must be an object: "@ + path)),
    }
}

/// The defaults in a settings file: none where there is no file.
pub open spec fn native_defaults(file: Option<Seq<u8>>, path: Seq<char>) -> Result<
    DefaultsModel,
    ErrorModel,
> {
    match file {
        None => Ok(
            DefaultsModel { default_provider: None, default_model: None, session_dir: None },
        ),
        Some(bytes) => match json5_file(bytes, "OMP settings"@, path) {
            Err(error) => Err(error),
            Ok(value) => defaults_in(value, path),
        },
    }
}

/// The string under `key`, if there is one that is not null.
pub fn optional_string(object: &Vec<(String, Json)>, key: &str, path: &str) -> (r: Result<
    Option<String>,
    AppError,
>)
    ensures
        match r {
            Ok(text) => string_entry(entries_model(object@), key@, path@) == Ok::<
                Option<Seq<char>>,
                ErrorModel,
            >(optional_text(text)),
            Err(error) => string_entry(entries_model(object@), key@, path@) == Err::<
                Option<Seq<char>>,
                ErrorModel,
            >(error@),
        },
{
    match get_entry(object, key) {
        None => Ok(None),
        Some(Json::Null) => Ok(None),
        Some(Json::String(value)) => Ok(Some(value.clone())),
        Some(_) => {
            let mut message: String = "OMP settings '".to_owned();
            message.append(key);
            message.append("' must be a string: ");
            message.append(path);
            Err(AppError::Config(message))
        },
    }
}

/// The defaults that the value of a settings file chooses.
pub fn defaults_of(value: &Json, path: &str) -> (r: Result<OmpNativeDefaults, AppError>)
    ensures
        match (defaults_in(value@, path@), r) {
            (Ok(model), Ok(defaults)) => defaults@ == model,
            (Err(error), Err(e)) => e@ == error,
            _ => false,
        },
{
    let object = match value {
        Json::Object(object) => object,
        _ => {
            let mut message: String = "OMP settings root must be an object: ".to_owned();
            message.append(path);
            return Err(AppError::Config(message));
        },
    };
    proof {
        lemma_object_model(*object);
    }
    let default_provider: Option<String> = match optional_string(object, "defaultProvider", path) {
        Ok(text) => text,
        Err(error) => return Err(error),
    };
    let default_model: Option<String> = match optional_string(object, "defaultModel", path) {
        Ok(text) => text,
        Err(error) => return Err(error),
    };
    let session_dir: Option<String> = match optional_string(object, "sessionDir", path) {
        Ok(text) => text,
        Err(error) => return Err(error),
    };
    Ok(OmpNativeDefaults { default_provider, default_model, session_dir })
}

/// The defaults in a settings file: none where there is no file.
pub fn read_omp_native_defaults(file: Option<Vec<u8>>, path: &str) -> (r: Result<
    OmpNativeDefaults,
    AppError,
>)
    ensures
        match (native_defaults(file_bytes(file), path@), r) {
            (Ok(model), Ok(defaults)) => defaults@ == model,
            (Err(error), Err(e)) => e@ == error,
            _ => false,
        },
{
    match file {
        None => Ok(OmpNativeDefaults::default()),
        Some(bytes) => match read_json5_value(bytes, path, "OMP settings") {
            Ok(value) => defaults_of(&value, path),
            Err(error) => Err(error),
        },
    }
}

} // verus!
