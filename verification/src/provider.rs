//! One provider node: `models.json`'s `providers.<key>`.

use vstd::prelude::*;

use crate::error::{AppError, ErrorModel};
use crate::json::{
    entries_model, get_entry, items_model, lemma_array_model, lemma_object_model, lookup, Json,
    JsonModel,
};
use crate::text::{first_where, lemma_first_where, trim, trimmed};

verus! {

/// Why a node may not be kept under a key, if it may not: a key of white space
/// alone, or a node that is not an object.
pub open spec fn node_error(provider_key: Seq<char>, config: JsonModel) -> Option<ErrorModel> {
    if trimmed(provider_key).len() == 0 {
        Some(ErrorModel::InvalidInput("OMP provider key cannot be empty"@))
    } else if !(config is Object) {
        Some(ErrorModel::InvalidInput("OMP provider configuration must be an object"@))
    } else {
        None
    }
}

/// Whether the node can be kept under the key. Every object can, under any key
/// that is more than white space.
pub fn validate_provider_node(provider_key: &str, config: &Json) -> (r: Result<(), AppError>)
    ensures
        match r {
            Ok(()) => node_error(provider_key@, config@) is None,
            Err(error) => node_error(provider_key@, config@) == Some(error@),
        },
{
    if trim(provider_key).is_empty() {
        return Err(AppError::InvalidInput("OMP provider key cannot be empty".to_owned()));
    }
    match config {
        Json::Object(_) => Ok(()),
        _ => Err(
            AppError::InvalidInput("OMP provider configuration must be an object".to_owned()),
        ),
    }
}

/// The text of a string that is not empty.
pub open spec fn nonempty_text(value: Option<JsonModel>) -> Option<Seq<char>> {
    match value {
        Some(JsonModel::String(s)) => if s.len() > 0 {
            Some(s)
        } else {
            None
        },
        _ => None,
    }
}

/// The text of a string that is not empty.
pub fn nonempty_string<'a>(value: Option<&'a Json>) -> (r: Option<&'a str>)
    ensures
        match (value, r) {
            (Some(v), Some(s)) => nonempty_text(Some(v@)) == Some(s@),
            (Some(v), None) => nonempty_text(Some(v@)) is None,
            (None, _) => r is None,
        },
{
    match value {
        Some(Json::String(s)) => {
            if s.as_str().is_empty() {
                None
            } else {
                Some(s.as_str())
            }
        },
        _ => None,
    }
}

/// A member of a value: there is none where the value is not an object.
pub open spec fn member(value: JsonModel, key: Seq<char>) -> Option<JsonModel> {
    match value {
        JsonModel::Object(entries) => lookup(entries, key),
        _ => None,
    }
}

/// The test for a model having a request URL of its own.
pub open spec fn has_url() -> spec_fn(JsonModel) -> bool {
    |model: JsonModel| nonempty_text(member(model, "baseUrl"@)) is Some
}

/// The request URL of the first model that has one.
pub open spec fn models_url(models: Option<JsonModel>) -> Option<Seq<char>> {
    match models {
        Some(JsonModel::Array(items)) => {
            let i = first_where(items, has_url()) as int;
            if i < items.len() {
                nonempty_text(member(items[i], "baseUrl"@))
            } else {
                None
            }
        },
        _ => None,
    }
}

/// The request URL of a provider: its own, or else that of the first of its
/// models that has one.
pub open spec fn base_url(config: JsonModel) -> Result<Seq<char>, ErrorModel> {
    match config {
        JsonModel::Object(entries) => match nonempty_text(lookup(entries, "baseUrl"@)) {
            Some(url) => Ok(url),
            None => match models_url(lookup(entries, "models"@)) {
                Some(url) => Ok(url),
                None => Err(ErrorModel::InvalidInput("OMP provider has no request URL"@)),
            },
        },
        _ => Err(ErrorModel::InvalidInput("OMP provider configuration must be an object"@)),
    }
}

/// The request URL of a model of a provider.
fn model_url<'a>(model: &'a Json) -> (r: Option<&'a str>)
    ensures
        match r {
            Some(url) => nonempty_text(member(model@, "baseUrl"@)) == Some(url@),
            None => nonempty_text(member(model@, "baseUrl"@)) is None,
        },
{
    match model {
        Json::Object(entries) => {
            proof {
                lemma_object_model(*entries);
            }
            nonempty_string(get_entry(entries, "baseUrl"))
        },
        _ => None,
    }
}

/// The request URL of a provider.
pub fn provider_base_url(config: &Json) -> (r: Result<String, AppError>)
    ensures
        match r {
            Ok(url) => base_url(config@) == Ok::<Seq<char>, ErrorModel>(url@),
            Err(error) => base_url(config@) == Err::<Seq<char>, ErrorModel>(error@),
        },
{
    let entries = match config {
        Json::Object(entries) => entries,
        _ => {
            return Err(
                AppError::InvalidInput("OMP provider configuration must be an object".to_owned()),
            );
        },
    };
    proof {
        lemma_object_model(*entries);
    }
    if let Some(url) = nonempty_string(get_entry(entries, "baseUrl")) {
        return Ok(url.to_owned());
    }
    if let Some(Json::Array(models)) = get_entry(entries, "models") {
        proof {
            lemma_array_model(*models);
        }
        let ghost items = items_model(models@);
        let mut i: usize = 0;
        while i < models.len()
            invariant
                i <= models@.len(),
                items == items_model(models@),
                config@ == JsonModel::Object(entries_model(entries@)),
                nonempty_text(lookup(entries_model(entries@), "baseUrl"@)) is None,
                lookup(entries_model(entries@), "models"@) == Some(JsonModel::Array(items)),
                forall|j: int| 0 <= j < i ==> !has_url()(#[trigger] items[j]),
            decreases models@.len() - i,
        {
            assert(items[i as int] == models@[i as int]@);
            if let Some(url) = model_url(&models[i]) {
                proof {
                    lemma_first_where(items, has_url(), i as int);
                }
                return Ok(url.to_owned());
            }
            i = i + 1;
        }
        proof {
            lemma_first_where(items, has_url(), i as int);
        }
    }
    Err(AppError::InvalidInput("OMP provider has no request URL".to_owned()))
}

} // verus!
