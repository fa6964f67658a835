//! Where OMP's files are.

use std::path::PathBuf;

use vstd::prelude::*;

use crate::error::{AppError, ErrorModel};
use crate::settings::optional_text;
use crate::text::{trim, trimmed};

verus! {

/// std's path, whose syntax is that of the platform.
#[verifier::external_type_specification]
#[verifier::external_body]
pub struct ExPathBuf(std::path::PathBuf);

/// A part of a path: what a drive or a share is named, the root, the current
/// directory at the front, the parent directory, or a name.
pub enum PathPart {
    Prefix(Seq<char>),
    Root,
    Current,
    Parent,
    Name(Seq<char>),
}

/// The parts of a path, as `Path::components` tells them.
pub uninterp spec fn path_parts(path: PathBuf) -> Seq<PathPart>;

/// A path as `Path::display` shows it.
pub uninterp spec fn path_text(path: PathBuf) -> Seq<char>;

/// Whether a path is absolute, as `Path::is_absolute` tells it.
pub uninterp spec fn path_absolute(path: PathBuf) -> bool;

/// The path that `Path::join` makes of a path and a text.
pub uninterp spec fn path_joined(path: PathBuf, name: Seq<char>) -> PathBuf;

/// The path that `Path::parent` finds.
pub uninterp spec fn path_parent_of(path: PathBuf) -> Option<PathBuf>;

/// A name that holds no separator, no drive and no step.
pub open spec fn plain_name(name: Seq<char>) -> bool {
    &&& name.len() > 0
    &&& !(name.len() == 1 && name[0] == '.')
    &&& !(name.len() == 2 && name[0] == '.' && name[1] == '.')
    &&& forall|i: int|
        0 <= i < name.len() ==> name[i] != '/' && name[i] != '\\' && name[i] != ':'
}

/// A text that begins with a drive and goes on without a root: a letter, a colon
/// and no separator behind.
pub open spec fn names_drive(name: Seq<char>) -> bool {
    &&& name.len() >= 2
    &&& 'a' <= name[0] <= 'z' || 'A' <= name[0] <= 'Z'
    &&& name[1] == ':'
    &&& name.len() == 2 || (name[2] != '/' && name[2] != '\\')
}

/// A path that begins at a root, a drive or a share.
pub open spec fn anchored(parts: Seq<PathPart>) -> bool {
    parts.len() > 0 && (parts[0] is Root || parts[0] is Prefix)
}

/// A path to which a plain name is added as one more part: one that begins at
/// nothing, at a drive, or at a root that makes it absolute.
pub open spec fn extendable(path: PathBuf) -> bool {
    let parts = path_parts(path);
    ||| !anchored(parts)
    ||| parts[0] is Root && path_absolute(path)
    ||| parts[0] matches PathPart::Prefix(prefix) && prefix.len() == 2 && prefix[1] == ':'
}

/// Whether a path has a parent directory: not if it is empty, and not if it
/// ends in its root or in a drive.
pub open spec fn has_parent(parts: Seq<PathPart>) -> bool {
    parts.len() > 0 && !(parts.last() is Root) && !(parts.last() is Prefix)
}

/// Calls `Path::is_absolute`. The answer depends on the path alone. A path that
/// is absolute begins at a root, a drive or a share.
#[verifier::external_body]
fn path_is_absolute(path: &PathBuf) -> (r: bool)
    ensures
        r == path_absolute(*path),
        r ==> anchored(path_parts(*path)),
{
    path.is_absolute()
}

/// Calls `Path::join`. The result depends on the two arguments alone. A plain
/// name becomes the last part of a path that is [`extendable`]. An absolute path
/// stays absolute, unless the text has a prefix but no root, and so replaces the
/// path by a relative one: it then begins with a drive and goes on without a root.
#[verifier::external_body]
fn path_join(path: &PathBuf, name: &str) -> (r: PathBuf)
    ensures
        r == path_joined(*path, name@),
        plain_name(name@) && extendable(*path) ==> path_parts(r) == path_parts(*path).push(
            PathPart::Name(name@),
        ),
        path_absolute(*path) && !names_drive(name@) ==> path_absolute(r),
{
    path.join(name)
}

/// Calls `Path::parent`: the path without its last part, if it has a parent
/// directory. The result depends on the path alone, and is absolute where the
/// path is.
#[verifier::external_body]
fn path_parent(path: &PathBuf) -> (r: Option<PathBuf>)
    ensures
        r == path_parent_of(*path),
        match r {
            Some(parent) => {
                &&& has_parent(path_parts(*path))
                &&& path_parts(parent) == path_parts(*path).drop_last()
                &&& path_absolute(*path) ==> path_absolute(parent)
            },
            None => !has_parent(path_parts(*path)),
        },
{
    path.parent().map(std::path::Path::to_path_buf)
}

/// Calls `Path::display`: a text that depends on the path alone.
#[verifier::external_body]
fn path_display(path: &PathBuf) -> (r: String)
    ensures
        r@ == path_text(*path),
{
    path.display().to_string()
}

/// The error for a directory that is not absolute.
pub open spec fn not_absolute(source: Seq<char>, shown: Seq<char>) -> ErrorModel {
    ErrorModel::InvalidInput(source + " must resolve to an absolute directory: "@ + shown)
}

/// Takes a directory if it is absolute.
pub fn accept_absolute(path: PathBuf, source: &str, absolute: bool) -> (r: Result<
    PathBuf,
    AppError,
>)
    ensures
        match r {
            Ok(taken) => absolute && taken == path,
            Err(error) => !absolute && error@ == not_absolute(source@, path_text(path)),
        },
{
    if !absolute {
        let mut message: String = source.to_owned();
        message.append(" must resolve to an absolute directory: ");
        message.append(path_display(&path).as_str());
        return Err(AppError::InvalidInput(message));
    }
    Ok(path)
}

/// A directory that must be absolute: the directory itself, or the error.
pub open spec fn absolute_dir(path: PathBuf, source: Seq<char>) -> Result<PathBuf, ErrorModel> {
    if path_absolute(path) {
        Ok(path)
    } else {
        Err(not_absolute(source, path_text(path)))
    }
}

/// Takes a directory exactly if it is absolute. One that begins at no root, drive
/// or share is not.
pub fn require_absolute(path: PathBuf, source: &str) -> (r: Result<PathBuf, AppError>)
    ensures
        match (absolute_dir(path, source@), r) {
            (Ok(dir), Ok(taken)) => taken == dir && anchored(path_parts(taken)),
            (Err(error), Err(e)) => e@ == error,
            _ => false,
        },
{
    let absolute: bool = path_is_absolute(&path);
    accept_absolute(path, source, absolute)
}

/// The environment's word on the agent directory.
pub struct EnvOverride {
    /// The text of the variable.
    pub value: String,
    /// The path that the text resolves to.
    pub path: PathBuf,
}

/// Where the agent directory comes from.
#[derive(Debug, PartialEq, Eq)]
pub enum AgentDirSource {
    /// The user's settings.
    Settings,
    /// A named profile.
    Profile(String),
    /// The environment.
    Environment,
    /// Nowhere: the default stands.
    Default,
}

/// What an [`AgentDirSource`] says.
pub enum SourceModel {
    Settings,
    Profile(Seq<char>),
    Environment,
    Default,
}

impl View for AgentDirSource {
    type V = SourceModel;

    open spec fn view(&self) -> SourceModel {
        match self {
            AgentDirSource::Settings => SourceModel::Settings,
            AgentDirSource::Profile(name) => SourceModel::Profile(name@),
            AgentDirSource::Environment => SourceModel::Environment,
            AgentDirSource::Default => SourceModel::Default,
        }
    }
}

/// Whether a profile is named: not by white space alone, and not by `default`.
pub open spec fn names_profile(value: Seq<char>) -> bool {
    trimmed(value).len() > 0 && trimmed(value) != "default"@
}

/// Where the agent directory comes from: the settings before a named profile,
/// that before the environment, and that before the default.
pub open spec fn agent_dir_source(
    in_settings: bool,
    profile: Option<Seq<char>>,
    environment: Option<Seq<char>>,
) -> SourceModel {
    if in_settings {
        SourceModel::Settings
    } else if profile is Some && names_profile(profile->0) {
        SourceModel::Profile(trimmed(profile->0))
    } else if environment is Some && environment->0.len() > 0 {
        SourceModel::Environment
    } else {
        SourceModel::Default
    }
}

/// Whether a profile is named.
fn is_named(name: &str) -> (r: bool)
    ensures
        r == (name@.len() > 0 && name@ != "default"@),
{
    !name.is_empty() && name.to_owned() != "default".to_owned()
}

/// The value of the profile's variable, if it names a profile.
pub fn named_profile(value: Option<String>) -> (r: Option<String>)
    ensures
        match value {
            Some(text) => if names_profile(text@) {
                r == value
            } else {
                r is None
            },
            None => r is None,
        },
{
    match value {
        Some(text) => {
            if is_named(trim(text.as_str())) {
                Some(text)
            } else {
                None
            }
        },
        None => None,
    }
}

/// Chooses where the agent directory comes from.
pub fn choose_agent_dir(
    in_settings: bool,
    profile: &Option<String>,
    environment: &Option<EnvOverride>,
) -> (r: AgentDirSource)
    ensures
        r@ == agent_dir_source(
            in_settings,
            optional_text(*profile),
            environment_text(*environment),
        ),
{
    if in_settings {
        return AgentDirSource::Settings;
    }
    if let Some(text) = profile {
        let name: &str = trim(text.as_str());
        if is_named(name) {
            return AgentDirSource::Profile(name.to_owned());
        }
    }
    match environment {
        Some(word) => {
            if word.value.as_str().is_empty() {
                AgentDirSource::Default
            } else {
                AgentDirSource::Environment
            }
        },
        None => AgentDirSource::Default,
    }
}

/// Leaving out a profile that is not named beforehand changes nothing.
pub proof fn law_unnamed_profile_counts_for_nothing(
    in_settings: bool,
    profile: Option<Seq<char>>,
    environment: Option<Seq<char>>,
)
    requires
        profile matches Some(value) ==> !names_profile(value),
    ensures
        agent_dir_source(in_settings, profile, environment) == agent_dir_source(
            in_settings,
            None,
            environment,
        ),
{
}

/// The directory that holds a default agent directory, if there is one, and the
/// default agent directory itself otherwise.
pub open spec fn profile_base(default_path: PathBuf) -> PathBuf {
    match path_parent_of(default_path) {
        Some(parent) => parent,
        None => default_path,
    }
}

/// The agent directory of a profile: `profiles/<name>/agent` beside the default
/// one.
pub open spec fn profile_dir(default_path: PathBuf, name: Seq<char>) -> PathBuf {
    path_joined(
        path_joined(path_joined(profile_base(default_path), "profiles"@), name),
        "agent"@,
    )
}

/// The parts of the directory that holds a default agent directory.
pub open spec fn parent_or_self(parts: Seq<PathPart>) -> Seq<PathPart> {
    if has_parent(parts) {
        parts.drop_last()
    } else {
        parts
    }
}

/// What the agent directory of a profile is like: part by part where the name is
/// plain, and absolute where the default one is, unless the name begins with a
/// drive and goes on without a root.
pub open spec fn profile_dir_fits(default_path: PathBuf, name: Seq<char>) -> bool {
    let dir = profile_dir(default_path, name);
    &&& plain_name(name) && extendable(default_path) ==> path_parts(dir) == parent_or_self(
        path_parts(default_path),
    ).push(PathPart::Name("profiles"@)).push(PathPart::Name(name)).push(PathPart::Name("agent"@))
    &&& path_absolute(default_path) && !names_drive(name) ==> path_absolute(dir)
}

/// The agent directory of a profile.
pub fn profile_agent_dir(default_path: PathBuf, name: &str) -> (r: PathBuf)
    ensures
        r == profile_dir(default_path, name@),
        profile_dir_fits(default_path, name@),
{
    proof {
        reveal_strlit("profiles");
        reveal_strlit("agent");
    }
    let ghost before = default_path;
    let dot_omp: PathBuf = match path_parent(&default_path) {
        Some(parent) => parent,
        None => default_path,
    };
    assert(extendable(before) ==> extendable(dot_omp));
    let profiles: PathBuf = path_join(&dot_omp, "profiles");
    let named: PathBuf = path_join(&profiles, name);
    path_join(&named, "agent")
}

/// The text of the environment's word, if it has spoken.
pub open spec fn environment_text(environment: Option<EnvOverride>) -> Option<Seq<char>> {
    match environment {
        Some(word) => Some(word.value@),
        None => None,
    }
}

/// The agent directory: that of the settings, or else that of a named profile,
/// or else that of the environment, or else the default one. All but that of a
/// profile must be absolute.
pub open spec fn agent_dir(
    settings_override: Option<PathBuf>,
    omp_profile: Option<Seq<char>>,
    pi_env_override: Option<EnvOverride>,
    default_path: PathBuf,
) -> Result<PathBuf, ErrorModel> {
    match agent_dir_source(
        settings_override is Some,
        omp_profile,
        environment_text(pi_env_override),
    ) {
        SourceModel::Settings => absolute_dir(settings_override->0, "OMP settings override"@),
        SourceModel::Profile(name) => Ok(profile_dir(default_path, name)),
        SourceModel::Environment => absolute_dir(pi_env_override->0.path, "PI_CODING_AGENT_DIR"@),
        SourceModel::Default => absolute_dir(default_path, "OMP default"@),
    }
}

/// Finds the agent directory.
///
/// With an absolute default directory every directory that is found is absolute,
/// unless it is that of a profile whose name begins with a drive and goes on
/// without a root.
pub fn resolve_omp_agent_dir(
    settings_override: Option<PathBuf>,
    omp_profile: Option<String>,
    pi_env_override: Option<EnvOverride>,
    default_path: PathBuf,
) -> (r: Result<PathBuf, AppError>)
    ensures
        match (
            agent_dir(
                settings_override,
                optional_text(omp_profile),
                pi_env_override,
                default_path,
            ),
            r,
        ) {
            (Ok(dir), Ok(found)) => found == dir,
            (Err(error), Err(e)) => e@ == error,
            _ => false,
        },
        match agent_dir_source(
            settings_override is Some,
            optional_text(omp_profile),
            environment_text(pi_env_override),
        ) {
            SourceModel::Profile(name) => {
                &&& profile_dir_fits(default_path, name)
                &&& path_absolute(default_path) && !names_drive(name) ==> r is Ok && path_absolute(
                    r->Ok_0,
                )
            },
            _ => r matches Ok(found) ==> path_absolute(found) && anchored(path_parts(found)),
        },
{
    let source: AgentDirSource = choose_agent_dir(
        settings_override.is_some(),
        &omp_profile,
        &pi_env_override,
    );
    match (source, settings_override, pi_env_override) {
        (AgentDirSource::Settings, Some(path), _) => require_absolute(
            path,
            "OMP settings override",
        ),
        (AgentDirSource::Profile(name), _, _) => Ok(profile_agent_dir(default_path, name.as_str())),
        (AgentDirSource::Environment, _, Some(word)) => require_absolute(
            word.path,
            "PI_CODING_AGENT_DIR",
        ),
        _ => require_absolute(default_path, "OMP default"),
    }
}

/// With an absolute default directory an error means that the directory of the
/// settings, or that of the environment, was chosen and is not absolute. The
/// default does not take the place of either.
pub proof fn law_error_blames_the_chosen_directory(
    settings_override: Option<PathBuf>,
    omp_profile: Option<Seq<char>>,
    pi_env_override: Option<EnvOverride>,
    default_path: PathBuf,
)
    requires
        path_absolute(default_path),
        agent_dir(settings_override, omp_profile, pi_env_override, default_path) is Err,
    ensures
        match agent_dir_source(
            settings_override is Some,
            omp_profile,
            environment_text(pi_env_override),
        ) {
            SourceModel::Settings => !path_absolute(settings_override->0),
            SourceModel::Environment => !path_absolute(pi_env_override->0.path),
            _ => false,
        },
{
}

/// An absolute directory of the settings is taken, whatever the rest says.
pub proof fn law_settings_come_first(
    path: PathBuf,
    omp_profile: Option<Seq<char>>,
    pi_env_override: Option<EnvOverride>,
    default_path: PathBuf,
)
    requires
        path_absolute(path),
    ensures
        agent_dir(Some(path), omp_profile, pi_env_override, default_path) == Ok::<
            PathBuf,
            ErrorModel,
        >(path),
{
}

/// A named profile is never an error, whatever the environment says.
pub proof fn law_profile_comes_before_environment(
    profile: Seq<char>,
    pi_env_override: Option<EnvOverride>,
    default_path: PathBuf,
)
    requires
        names_profile(profile),
    ensures
        agent_dir(None, Some(profile), pi_env_override, default_path) == Ok::<PathBuf, ErrorModel>(
            profile_dir(default_path, trimmed(profile)),
        ),
{
}

/// The default agent directory: `.omp/agent` below the home directory.
pub fn default_agent_dir(home: &PathBuf) -> (r: PathBuf)
    ensures
        r == path_joined(path_joined(*home, ".omp"@), "agent"@),
        extendable(*home) ==> path_parts(r) == path_parts(*home).push(PathPart::Name(".omp"@)).push(
            PathPart::Name("agent"@),
        ),
        path_absolute(*home) ==> path_absolute(r),
{
    proof {
        reveal_strlit(".omp");
        reveal_strlit("agent");
    }
    let dot_omp: PathBuf = path_join(home, ".omp");
    path_join(&dot_omp, "agent")
}

/// The models file of an agent directory.
pub fn get_omp_models_path(agent_dir: &PathBuf) -> (r: PathBuf)
    ensures
        r == path_joined(*agent_dir, "models.json"@),
        extendable(*agent_dir) ==> path_parts(r) == path_parts(*agent_dir).push(
            PathPart::Name("models.json"@),
        ),
        path_absolute(*agent_dir) ==> path_absolute(r),
{
    proof {
        reveal_strlit("models.json");
    }
    path_join(agent_dir, "models.json")
}

/// The settings file of an agent directory.
pub fn get_omp_settings_path(agent_dir: &PathBuf) -> (r: PathBuf)
    ensures
        r == path_joined(*agent_dir, "settings.json"@),
        extendable(*agent_dir) ==> path_parts(r) == path_parts(*agent_dir).push(
            PathPart::Name("settings.json"@),
        ),
        path_absolute(*agent_dir) ==> path_absolute(r),
{
    proof {
        reveal_strlit("settings.json");
    }
    path_join(agent_dir, "settings.json")
}

/// The config file of an agent directory.
pub fn get_omp_config_path(agent_dir: &PathBuf) -> (r: PathBuf)
    ensures
        r == path_joined(*agent_dir, "config.yml"@),
        extendable(*agent_dir) ==> path_parts(r) == path_parts(*agent_dir).push(
            PathPart::Name("config.yml"@),
        ),
        path_absolute(*agent_dir) ==> path_absolute(r),
{
    proof {
        reveal_strlit("config.yml");
    }
    path_join(agent_dir, "config.yml")
}

/// The directory that must be there before a file is written.
pub fn models_parent(path: &PathBuf) -> (r: Result<PathBuf, AppError>)
    ensures
        match r {
            Ok(parent) => {
                &&& path_parent_of(*path) == Some(parent)
                &&& has_parent(path_parts(*path))
                &&& path_parts(parent) == path_parts(*path).drop_last()
            },
            Err(error) => {
                &&& path_parent_of(*path) is None
                &&& !has_parent(path_parts(*path))
                &&& error@ == ErrorModel::Config(
                    "OMP models path has no parent directory: "@ + path_text(*path),
                )
            },
        },
{
    match path_parent(path) {
        Some(parent) => Ok(parent),
        None => {
            let mut message: String = "OMP models path has no parent directory: ".to_owned();
            message.append(path_display(path).as_str());
            Err(AppError::Config(message))
        },
    }
}

} // verus!
