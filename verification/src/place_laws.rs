//! Where a caller is told that OMP's files are, told by what the settings, the
//! profile and the environment say, and by what is returned.

use std::path::PathBuf;

use vstd::prelude::*;

use crate::error::{AppError, ErrorModel};
use crate::paths::{
    accept_absolute, choose_agent_dir, default_agent_dir, get_omp_config_path,
    get_omp_models_path, get_omp_settings_path, models_parent, named_profile, names_profile,
    path_absolute, path_joined, path_parent_of, path_text, profile_agent_dir, require_absolute,
    resolve_omp_agent_dir, AgentDirSource, EnvOverride,
};
use crate::text::{trimmed, white_space};
use crate::text_laws::{
    blank, law_only_white_space_trims_to_nothing, law_trimming_leaves_the_middle,
};

verus! {

/// The text is a name with white space before it and behind it, or none. The name
/// itself neither begins nor ends with white space, and is not empty.
pub open spec fn spells(text: Seq<char>, name: Seq<char>) -> bool {
    &&& name.len() > 0
    &&& !white_space(name.first())
    &&& !white_space(name.last())
    &&& exists|front: Seq<char>, back: Seq<char>|
        blank(front) && blank(back) && #[trigger] (front + name + back) == text
}

/// What trimming such a text gives.
proof fn lemma_spells(text: Seq<char>, name: Seq<char>)
    requires
        spells(text, name),
    ensures
        trimmed(text) == name,
{
    let (front, back) = choose|front: Seq<char>, back: Seq<char>|
        blank(front) && blank(back) && #[trigger] (front + name + back) == text;
    law_trimming_leaves_the_middle(front, name, back);
}

/// The text says nothing: it is white space alone, or spells the word `default`.
pub open spec fn says_nothing(text: Seq<char>) -> bool {
    blank(text) || spells(text, "default"@)
}

/// What is named.
proof fn lemma_names(text: Seq<char>, name: Seq<char>)
    ensures
        spells(text, name) && name != "default"@ ==> names_profile(text) && trimmed(text) == name,
        says_nothing(text) ==> !names_profile(text),
{
    law_only_white_space_trims_to_nothing(text);
    if spells(text, name) {
        lemma_spells(text, name);
    }
    if spells(text, "default"@) {
        lemma_spells(text, "default"@);
    }
}

/// The agent directory of a profile: `profiles`, the name and `agent`, one below
/// the other, in the directory that holds the default one, or in the default one
/// itself where that has no parent.
pub open spec fn profile_place(default_path: PathBuf, name: Seq<char>) -> PathBuf {
    let base = match path_parent_of(default_path) {
        Some(parent) => parent,
        None => default_path,
    };
    path_joined(path_joined(path_joined(base, "profiles"@), name), "agent"@)
}

/// The directory was taken if it is absolute, and refused under that name if not.
pub open spec fn taken_if_absolute(
    r: Result<PathBuf, AppError>,
    path: PathBuf,
    source: Seq<char>,
) -> bool {
    match r {
        Ok(found) => path_absolute(path) && found == path,
        Err(error) => !path_absolute(path) && error@ == ErrorModel::InvalidInput(
            source + " must resolve to an absolute directory: "@ + path_text(path),
        ),
    }
}

/// A directory in the settings counts before anything else. Without one, a profile
/// that is named counts, under its name without the white space around it; without
/// that, what the environment says, if it says anything; and the default directory
/// without that. All but that of a profile must be absolute.
pub proof fn law_agent_directory_is_the_first_that_is_named(
    settings_override: Option<PathBuf>,
    omp_profile: Option<String>,
    pi_env_override: Option<EnvOverride>,
    default_path: PathBuf,
    name: Seq<char>,
    r: Result<PathBuf, AppError>,
)
    requires
        call_ensures(
            resolve_omp_agent_dir,
            (settings_override, omp_profile, pi_env_override, default_path),
            r,
        ),
    ensures
        settings_override is Some ==> taken_if_absolute(
            r,
            settings_override->0,
            "OMP settings override"@,
        ),
        settings_override is None && omp_profile is Some && spells(omp_profile->0@, name) && name
            != "default"@ ==> r is Ok && r->Ok_0 == profile_place(default_path, name),
        settings_override is None && (omp_profile is None || says_nothing(omp_profile->0@)) ==> if
        pi_env_override is Some && pi_env_override->0.value@.len() > 0 {
            taken_if_absolute(r, pi_env_override->0.path, "PI_CODING_AGENT_DIR"@)
        } else {
            taken_if_absolute(r, default_path, "OMP default"@)
        },
{
    if let Some(text) = omp_profile {
        lemma_names(text@, name);
    }
}

/// Every text is white space alone or spells a name.
pub proof fn law_text_is_blank_or_spells_a_name(text: Seq<char>) -> (name: Seq<char>)
    ensures
        blank(text) || spells(text, name),
    decreases text.len(),
{
    if blank(text) {
        text
    } else if white_space(text.first()) {
        let rest = text.drop_first();
        let i = choose|i: int| 0 <= i < text.len() && !white_space(#[trigger] text[i]);
        assert(rest[i - 1] == text[i]);
        let name = law_text_is_blank_or_spells_a_name(rest);
        let (front, back) = choose|front: Seq<char>, back: Seq<char>|
            blank(front) && blank(back) && #[trigger] (front + name + back) == rest;
        let more = seq![text.first()] + front;
        assert forall|j: int| 0 <= j < more.len() implies white_space(#[trigger] more[j]) by {
            if j > 0 {
                assert(more[j] == front[j - 1]);
            }
        }
        assert(more + name + back =~= text) by {
            assert(text =~= seq![text.first()] + rest);
        }
        name
    } else if white_space(text.last()) {
        let rest = text.drop_last();
        assert(rest[0] == text[0]);
        let name = law_text_is_blank_or_spells_a_name(rest);
        let (front, back) = choose|front: Seq<char>, back: Seq<char>|
            blank(front) && blank(back) && #[trigger] (front + name + back) == rest;
        let more = back + seq![text.last()];
        assert forall|j: int| 0 <= j < more.len() implies white_space(#[trigger] more[j]) by {
            if j < back.len() {
                assert(more[j] == back[j]);
            }
        }
        assert(front + name + more =~= text) by {
            assert(text =~= rest + seq![text.last()]);
        }
        name
    } else {
        let none = Seq::<char>::empty();
        assert(none + text + none =~= text);
        text
    }
}

/// The choice of where the agent directory comes from: the settings, or else a
/// named profile, or else the environment, or else nowhere.
pub proof fn law_choice_goes_from_settings_to_default(
    in_settings: bool,
    profile: &Option<String>,
    environment: &Option<EnvOverride>,
    name: Seq<char>,
    r: AgentDirSource,
)
    requires
        call_ensures(choose_agent_dir, (in_settings, profile, environment), r),
    ensures
        in_settings ==> r is Settings,
        !in_settings && profile is Some && spells(profile->0@, name) && name != "default"@ ==> r
            is Profile && r->Profile_0@ == name,
        !in_settings && (profile is None || says_nothing(profile->0@)) ==> if environment is Some
            && environment->0.value@.len() > 0 {
            r is Environment
        } else {
            r is Default
        },
{
    if let Some(text) = profile {
        lemma_names(text@, name);
    }
}

/// The value of the profile's variable is handed on as it is if it spells a name
/// other than `default`, and not at all if it says nothing.
pub proof fn law_profile_is_handed_on_if_it_is_named(
    value: Option<String>,
    name: Seq<char>,
    r: Option<String>,
)
    requires
        call_ensures(named_profile, (value,), r),
    ensures
        value is Some && spells(value->0@, name) && name != "default"@ ==> r == value,
        value is None || says_nothing(value->0@) ==> r is None,
{
    if let Some(text) = value {
        lemma_names(text@, name);
    }
}

/// A directory that must be absolute is taken as it is if it is, and refused
/// otherwise.
pub proof fn law_absolute_directory_is_taken(
    path: PathBuf,
    source: &str,
    absolute: bool,
    r: Result<PathBuf, AppError>,
    s: Result<PathBuf, AppError>,
)
    requires
        call_ensures(require_absolute, (path, source), r),
        call_ensures(accept_absolute, (path, source, absolute), s),
    ensures
        taken_if_absolute(r, path, source@),
        absolute == path_absolute(path) ==> taken_if_absolute(s, path, source@),
{
}

/// The files of an agent directory stand in it under their names, the default
/// agent directory stands below the home directory, that of a profile beside it,
/// and what must be there before a file is written is its parent.
pub proof fn law_files_stand_under_their_names(
    dir: &PathBuf,
    name: &str,
    models: PathBuf,
    settings: PathBuf,
    config: PathBuf,
    agent: PathBuf,
    profile: PathBuf,
    parent: Result<PathBuf, AppError>,
)
    requires
        call_ensures(get_omp_models_path, (dir,), models),
        call_ensures(get_omp_settings_path, (dir,), settings),
        call_ensures(get_omp_config_path, (dir,), config),
        call_ensures(default_agent_dir, (dir,), agent),
        call_ensures(profile_agent_dir, (*dir, name), profile),
        call_ensures(models_parent, (dir,), parent),
    ensures
        models == path_joined(*dir, "models.json"@),
        settings == path_joined(*dir, "settings.json"@),
        config == path_joined(*dir, "config.yml"@),
        agent == path_joined(path_joined(*dir, ".omp"@), "agent"@),
        profile == profile_place(*dir, name@),
        parent is Ok <==> path_parent_of(*dir) is Some,
        parent matches Ok(found) ==> path_parent_of(*dir) == Some(found),
        parent matches Err(error) ==> error@ == ErrorModel::Config(
            "OMP models path has no parent directory: "@ + path_text(*dir),
        ),
{
}

} // verus!
