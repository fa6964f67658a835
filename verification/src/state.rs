//! The state shown to the user: which providers there are, and which of them,
//! with which model, is the default.

use std::hash::RandomState;

use vstd::prelude::*;

use crate::config::{role_text, tail_of};
use crate::error::AppError;
use crate::json::Json;
use crate::provider_map::{keys_of, provider_entries, provider_keys, texts};
use crate::settings::optional_text;
use crate::text::{find_char, first_of, is_char, lemma_first_where, lemma_first_where_holds};
use crate::text_laws::law_first_place_is_found;

verus! {

/// The providers of OMP and its default.
#[derive(Debug, PartialEq, Eq)]
pub struct OmpCurrentState {
    pub enabled_provider_ids: Vec<String>,
    pub default_provider_id: Option<String>,
    pub default_model: Option<String>,
}

/// The providers of Prime and its default.
#[derive(Debug, PartialEq, Eq)]
pub struct PrimeCurrentState {
    pub enabled_provider_ids: Vec<String>,
    pub default_provider_id: Option<String>,
}

/// The provider and the model of a role: what stands before its first slash and
/// what stands behind. There is neither where the slash or the provider is
/// missing, and no model where nothing stands behind.
pub open spec fn split_role(role: Seq<char>) -> (Option<Seq<char>>, Option<Seq<char>>) {
    let i = first_of(role, '/') as int;
    if i >= role.len() || i == 0 {
        (None, None)
    } else if i + 1 == role.len() {
        (Some(role.take(i)), None)
    } else {
        (Some(role.take(i)), Some(role.skip(i + 1)))
    }
}

/// Splits a role at its first slash into the provider and the model.
pub fn split_default_role(role: &str) -> (r: (Option<String>, Option<String>))
    ensures
        (optional_text(r.0), optional_text(r.1)) == split_role(role@),
{
    let i: usize = match find_char(role, '/') {
        Some(i) => i,
        None => return (None, None),
    };
    if i == 0 {
        return (None, None);
    }
    let end: usize = role.unicode_len();
    let provider: String = role.substring_char(0, i).to_owned();
    assert(provider@ =~= role@.take(i as int));
    if i + 1 == end {
        return (Some(provider), None);
    }
    let model: String = role.substring_char(i + 1, end).to_owned();
    assert(model@ =~= role@.skip(i + 1));
    (Some(provider), Some(model))
}

/// The provider and the model of the default role. Where the role is not there,
/// or could not be read, there is neither.
pub open spec fn shown_default(role: Result<Option<String>, AppError>) -> (
    Option<Seq<char>>,
    Option<Seq<char>>,
) {
    match role {
        Ok(Some(role)) => split_role(role@),
        _ => (None, None),
    }
}

/// The state of OMP.
pub struct OmpStateService;

impl OmpStateService {
    /// The providers that were read and the default role that was read. An
    /// error in the role hides the default and nothing else.
    pub fn current(
        native: Result<indexmap::IndexMap<String, Json, RandomState>, AppError>,
        role: Result<Option<String>, AppError>,
    ) -> (r: Result<OmpCurrentState, AppError>)
        ensures
            match (native, r) {
                (Ok(map), Ok(state)) => {
                    &&& texts(state.enabled_provider_ids@) == keys_of(provider_entries(map))
                    &&& (
                        optional_text(state.default_provider_id),
                        optional_text(state.default_model),
                    ) == shown_default(role)
                },
                (Err(error), Err(e)) => e == error,
                _ => false,
            },
    {
        let map: indexmap::IndexMap<String, Json, RandomState> = match native {
            Ok(map) => map,
            Err(error) => return Err(error),
        };
        let enabled_provider_ids: Vec<String> = provider_keys(&map);
        let (default_provider_id, default_model): (Option<String>, Option<String>) = match role {
            Ok(Some(role)) => split_default_role(role.as_str()),
            Ok(None) => (None, None),
            Err(_) => (None, None),
        };
        Ok(OmpCurrentState { enabled_provider_ids, default_provider_id, default_model })
    }
}

/// The state of Prime.
pub struct PrimeStateService;

impl PrimeStateService {
    /// The providers that were read and the default provider that was read. An
    /// error in the default hides it and nothing else.
    pub fn current(
        native: Result<indexmap::IndexMap<String, Json, RandomState>, AppError>,
        default_provider: Result<Option<String>, AppError>,
    ) -> (r: Result<PrimeCurrentState, AppError>)
        ensures
            match (native, r) {
                (Ok(map), Ok(state)) => {
                    &&& texts(state.enabled_provider_ids@) == keys_of(provider_entries(map))
                    &&& match default_provider {
                        Ok(provider) => state.default_provider_id == provider,
                        Err(_) => state.default_provider_id is None,
                    }
                },
                (Err(error), Err(e)) => e == error,
                _ => false,
            },
    {
        let map: indexmap::IndexMap<String, Json, RandomState> = match native {
            Ok(map) => map,
            Err(error) => return Err(error),
        };
        let enabled_provider_ids: Vec<String> = provider_keys(&map);
        let default_provider_id: Option<String> = match default_provider {
            Ok(provider) => provider,
            Err(_) => None,
        };
        Ok(PrimeCurrentState { enabled_provider_ids, default_provider_id })
    }
}

/// Putting the parts of a role together again gives the role.
pub proof fn law_split_loses_nothing(role: Seq<char>)
    ensures
        match split_role(role) {
            (Some(provider), Some(model)) => role == provider + "/"@ + model,
            (Some(provider), None) => role == provider + "/"@,
            (None, model) => model is None && (!role.contains('/') || role[0] == '/'),
        },
{
    let i = first_of(role, '/') as int;
    reveal_strlit("/");
    lemma_first_where_holds(role, is_char('/'));
    if i >= role.len() {
        if role.contains('/') {
            let j = choose|j: int| 0 <= j < role.len() && role[j] == '/';
            assert(is_char('/')(role[j]));
        }
    } else if i > 0 {
        let provider = role.take(i);
        if i + 1 == role.len() {
            assert(role =~= provider + "/"@);
        } else {
            assert(role =~= provider + "/"@ + role.skip(i + 1));
        }
    }
}

/// The role that is written for a provider and a model is shown as that
/// provider and as that model with the tail of the role before, if the provider
/// is not empty and has no slash, and the model is not empty.
pub proof fn law_written_role_is_shown(
    provider_id: Seq<char>,
    model_id: Seq<char>,
    previous: Option<Seq<char>>,
)
    requires
        provider_id.len() > 0,
        !provider_id.contains('/'),
        model_id.len() > 0,
    ensures
        split_role(role_text(provider_id, model_id, previous)) == (
            Some(provider_id),
            Some(model_id + tail_of(previous)),
        ),
{
    let role = role_text(provider_id, model_id, previous);
    let i = provider_id.len() as int;
    reveal_strlit("/");
    assert forall|j: int| 0 <= j < i implies !is_char('/')(#[trigger] role[j]) by {
        assert(role[j] == provider_id[j]);
        assert(provider_id.contains(provider_id[j]));
    }
    assert(role[i] == '/');
    lemma_first_where(role, is_char('/'), i);
    assert(role.take(i) =~= provider_id);
    assert(role.skip(i + 1) =~= model_id + tail_of(previous));
}

/// A role that is a provider, a slash and a model is split into these, whatever
/// else stands in the model, a slash or a colon among it, if the provider is not
/// empty and has no slash. An empty model is no model.
pub proof fn law_role_is_split_at_its_first_slash(provider: Seq<char>, model: Seq<char>)
    requires
        provider.len() > 0,
        !provider.contains('/'),
    ensures
        split_role(provider + seq!['/'] + model) == (
            Some(provider),
            if model.len() > 0 {
                Some(model)
            } else {
                None
            },
        ),
{
    let role = provider + seq!['/'] + model;
    let i = provider.len() as int;
    law_first_place_is_found(provider, '/', model);
    assert(role.take(i) =~= provider);
    assert(role.skip(i + 1) =~= model);
}

/// A role without a slash, and one that begins with it, has neither a provider nor
/// a model.
pub proof fn law_role_without_provider_is_not_split(role: Seq<char>)
    requires
        !role.contains('/') || role[0] == '/',
    ensures
        split_role(role) == (None::<Seq<char>>, None::<Seq<char>>),
{
    if role.contains('/') {
        lemma_first_where(role, is_char('/'), 0);
    } else {
        law_first_place_is_found(role, '/', Seq::empty());
    }
}

/// Splitting a role gives the provider before its first slash and the model behind
/// it, and neither where there is no provider.
pub proof fn law_split_gives_provider_and_model(
    role: &str,
    r: (Option<String>, Option<String>),
    provider: Seq<char>,
    model: Seq<char>,
)
    requires
        call_ensures(split_default_role, (role,), r),
    ensures
        role@ == provider + seq!['/'] + model && provider.len() > 0 && !provider.contains('/')
            ==> {
            &&& r.0 matches Some(first)
            &&& first@ == provider
            &&& r.1 is Some <==> model.len() > 0
            &&& r.1 matches Some(second) ==> second@ == model
        },
        !role@.contains('/') || role@[0] == '/' ==> r.0 is None && r.1 is None,
{
    if role@ == provider + seq!['/'] + model && provider.len() > 0 && !provider.contains('/') {
        law_role_is_split_at_its_first_slash(provider, model);
    }
    if !role@.contains('/') || role@[0] == '/' {
        law_role_without_provider_is_not_split(role@);
    }
}

/// The state made from providers that were read and from a role that is a
/// provider, a slash and a model has that provider for its default provider and
/// that model for its default model, with a colon in the model or without, if the
/// provider is not empty and has no slash, and the model is not empty.
pub proof fn law_default_role_is_shown(
    map: indexmap::IndexMap<String, Json, RandomState>,
    role: String,
    r: Result<OmpCurrentState, AppError>,
    provider: Seq<char>,
    model: Seq<char>,
)
    requires
        call_ensures(OmpStateService::current, (Ok(map), Ok(Some(role))), r),
        role@ == provider + seq!['/'] + model,
        provider.len() > 0,
        !provider.contains('/'),
        model.len() > 0,
    ensures
        ({
            &&& r matches Ok(state)
            &&& state.default_provider_id matches Some(shown)
            &&& shown@ == provider
            &&& state.default_model matches Some(name)
            &&& name@ == model
        }),
{
    law_role_is_split_at_its_first_slash(provider, model);
}

/// The state has the keys of the providers that were read, all of them, in their
/// order, whatever the default role is. It has no default where there is no role
/// or the role could not be read, and there is no state where the providers could
/// not be read.
pub proof fn law_state_lists_every_provider(
    native: Result<indexmap::IndexMap<String, Json, RandomState>, AppError>,
    role: Result<Option<String>, AppError>,
    r: Result<OmpCurrentState, AppError>,
    i: int,
)
    requires
        call_ensures(OmpStateService::current, (native, role), r),
    ensures
        native matches Ok(map) ==> {
            &&& r matches Ok(state)
            &&& state.enabled_provider_ids@.len() == provider_entries(map).len()
            &&& 0 <= i < provider_entries(map).len() ==> state.enabled_provider_ids@[i]@
                == provider_entries(map)[i].0
            &&& !(role matches Ok(Some(_))) ==> state.default_provider_id is None
                && state.default_model is None
        },
        native matches Err(error) ==> r == Err::<OmpCurrentState, AppError>(error),
{
    if let Ok(map) = native {
        lemma_texts_are_keys(r->Ok_0.enabled_provider_ids@, map, i);
    }
}

/// The state of Prime has the keys of the providers that were read, all of them,
/// in their order, and the default provider that was read. It has no default where
/// that could not be read, and there is no state where the providers could not be.
pub proof fn law_prime_state_lists_every_provider(
    native: Result<indexmap::IndexMap<String, Json, RandomState>, AppError>,
    default_provider: Result<Option<String>, AppError>,
    r: Result<PrimeCurrentState, AppError>,
    i: int,
)
    requires
        call_ensures(PrimeStateService::current, (native, default_provider), r),
    ensures
        native matches Ok(map) ==> {
            &&& r matches Ok(state)
            &&& state.enabled_provider_ids@.len() == provider_entries(map).len()
            &&& 0 <= i < provider_entries(map).len() ==> state.enabled_provider_ids@[i]@
                == provider_entries(map)[i].0
            &&& default_provider matches Ok(provider) ==> state.default_provider_id == provider
            &&& default_provider is Err ==> state.default_provider_id is None
        },
        native matches Err(error) ==> r == Err::<PrimeCurrentState, AppError>(error),
{
    if let Ok(map) = native {
        lemma_texts_are_keys(r->Ok_0.enabled_provider_ids@, map, i);
    }
}

/// Strings whose texts are the keys of a map are these, one by one.
proof fn lemma_texts_are_keys(
    strings: Seq<String>,
    map: indexmap::IndexMap<String, Json, RandomState>,
    i: int,
)
    requires
        texts(strings) == keys_of(provider_entries(map)),
    ensures
        strings.len() == provider_entries(map).len(),
        0 <= i < strings.len() ==> strings[i]@ == provider_entries(map)[i].0,
{
    let entries = provider_entries(map);
    assert(texts(strings).len() == strings.len());
    assert(keys_of(entries).len() == entries.len());
    if 0 <= i < strings.len() {
        assert(texts(strings)[i] == strings[i]@);
        assert(keys_of(entries)[i] == entries[i].0);
    }
}

} // verus!
