//! The default role of `config.yml`: `modelRoles.default`.

use vstd::prelude::*;
use vstd::utf8::{encode_utf8, encode_utf8_decode_utf8, encode_utf8_valid_utf8};

use crate::error::{AppError, ErrorModel};
use crate::files::{
    file_bytes, limited, read_file_limited, read_text, utf8_text, MAX_OMP_FILE_BYTES,
};
use crate::settings::optional_text;
use crate::text::{
    find_char, first_of, first_where, is_char, lemma_first_where, lemma_first_where_holds, trim,
    trimmed,
};
use crate::yaml::{
    is_key, lemma_mapping_model, lemma_untagged_valid, lemma_with_mapping,
    lemma_with_mapping_twice,
    lemma_with_yaml_entry, lemma_with_yaml_entry_valid, mapping_model, mapping_of, reads_as, set_yaml,
    untagged, with_mapping, with_yaml_entry, yaml_index, yaml_lookup, yaml_mapping_lookup,
    yaml_mapping_lookup_mut, yaml_same, yaml_size, yaml_valid, Yaml, YamlModel,
};
use crate::yaml_text::{
    plain_tags, read_yaml, write_yaml, yaml_nested, yaml_read, yaml_safe, yaml_write, YAML_DEPTH,
    YAML_SIZE,
};

verus! {

/// The entries of a document: those of its mapping, and none where it is null.
pub open spec fn document_entries(document: YamlModel, path: Seq<char>) -> Result<
    Seq<(YamlModel, YamlModel)>,
    ErrorModel,
> {
    if untagged(document) is Null {
        Ok(Seq::empty())
    } else {
        match mapping_of(document) {
            Some(entries) => Ok(entries),
            None => Err(ErrorModel::Config("OMP config root must be a mapping: "@ + path)),
        }
    }
}

/// The entries of a config file: none where it holds white space alone.
pub open spec fn config_entries(bytes: Seq<u8>, path: Seq<char>) -> Result<
    Seq<(YamlModel, YamlModel)>,
    ErrorModel,
> {
    match limited(bytes, "OMP config"@, path) {
        Err(error) => Err(error),
        Ok(bytes) => match utf8_text(bytes, "OMP config"@, path) {
            Err(error) => Err(error),
            Ok(source) => if trimmed(source).len() == 0 {
                Ok(Seq::empty())
            } else {
                match yaml_read(source) {
                    Err(words) => Err(
                        ErrorModel::Config(
                            "OMP config file is not valid YAML ("@ + path + "): "@ + words,
                        ),
                    ),
                    Ok(document) => document_entries(document, path),
                }
            },
        },
    }
}

/// The error for entries that cannot be written as YAML.
pub open spec fn serialize_error(path: Seq<char>, words: Seq<char>) -> ErrorModel {
    ErrorModel::Config("failed to serialize OMP config ("@ + path + "): "@ + words)
}

/// The text for entries, if they are not too large and can be written as YAML.
pub open spec fn config_text(entries: Seq<(YamlModel, YamlModel)>, path: Seq<char>) -> Result<
    Seq<char>,
    ErrorModel,
> {
    if yaml_size(YamlModel::Mapping(entries)) > YAML_SIZE {
        Err(serialize_error(path, "the document is too large"@))
    } else {
        match yaml_write(YamlModel::Mapping(entries)) {
            Ok(text) => Ok(text),
            Err(words) => Err(serialize_error(path, words)),
        }
    }
}

/// The error for roles that are not a mapping.
pub open spec fn roles_error(path: Seq<char>) -> ErrorModel {
    ErrorModel::Config("OMP config 'modelRoles' must be a mapping: "@ + path)
}

/// The default role among the roles. A tagged value is no string here.
pub open spec fn default_among(roles: Seq<(YamlModel, YamlModel)>, path: Seq<char>) -> Result<
    Option<Seq<char>>,
    ErrorModel,
> {
    match yaml_lookup(roles, "default"@) {
        None => Ok(None),
        Some(YamlModel::Null) => Ok(None),
        Some(YamlModel::String(role)) => Ok(Some(role)),
        Some(_) => Err(
            ErrorModel::Config("OMP config 'modelRoles.default' must be a string: "@ + path),
        ),
    }
}

/// The default role among the entries of a config file.
pub open spec fn role_in(entries: Seq<(YamlModel, YamlModel)>, path: Seq<char>) -> Result<
    Option<Seq<char>>,
    ErrorModel,
> {
    match yaml_lookup(entries, "modelRoles"@) {
        None => Ok(None),
        Some(roles) => if untagged(roles) is Null {
            Ok(None)
        } else {
            match mapping_of(roles) {
                None => Err(roles_error(path)),
                Some(roles) => default_among(roles, path),
            }
        },
    }
}

/// The default role in a config file: none where there is no file.
pub open spec fn default_role(file: Option<Seq<u8>>, path: Seq<char>) -> Result<
    Option<Seq<char>>,
    ErrorModel,
> {
    match file {
        None => Ok(None),
        Some(bytes) => match config_entries(bytes, path) {
            Err(error) => Err(error),
            Ok(entries) => role_in(entries, path),
        },
    }
}

/// The tail of a role: from its first colon on.
pub open spec fn tail_of(role: Option<Seq<char>>) -> Seq<char> {
    match role {
        Some(role) => role.skip(first_of(role, ':') as int),
        None => Seq::empty(),
    }
}

/// The role for a provider and a model, with the tail of the role before.
pub open spec fn role_text(
    provider_id: Seq<char>,
    model_id: Seq<char>,
    previous: Option<Seq<char>>,
) -> Seq<char> {
    provider_id + "/"@ + model_id + tail_of(previous)
}

/// The entries, with an empty mapping for the roles where there is nothing.
pub open spec fn with_roles(entries: Seq<(YamlModel, YamlModel)>) -> Seq<(YamlModel, YamlModel)> {
    if yaml_lookup(entries, "modelRoles"@) is None {
        with_yaml_entry(entries, "modelRoles"@, YamlModel::Mapping(Seq::empty()))
    } else {
        entries
    }
}

/// The entries with another default role.
pub open spec fn with_role(
    entries: Seq<(YamlModel, YamlModel)>,
    role: Seq<char>,
    path: Seq<char>,
) -> Result<Seq<(YamlModel, YamlModel)>, ErrorModel> {
    let all = with_roles(entries);
    let i = yaml_index(all, "modelRoles"@) as int;
    match mapping_of(all[i].1) {
        None => Err(roles_error(path)),
        Some(roles) => Ok(
            all.update(
                i,
                (
                    all[i].0,
                    with_mapping(
                        all[i].1,
                        with_yaml_entry(roles, "default"@, YamlModel::String(role)),
                    ),
                ),
            ),
        ),
    }
}

/// The entries with the default role pointed at a provider and a model. The
/// tail of the role before is kept.
pub open spec fn repointed(
    entries: Seq<(YamlModel, YamlModel)>,
    provider_id: Seq<char>,
    model_id: Seq<char>,
    path: Seq<char>,
) -> Result<Seq<(YamlModel, YamlModel)>, ErrorModel> {
    match role_in(entries, path) {
        Err(error) => Err(error),
        Ok(previous) => with_role(entries, role_text(provider_id, model_id, previous), path),
    }
}

/// The entries of a config file, which may not exist yet.
pub open spec fn entries_before(file: Option<Seq<u8>>, path: Seq<char>) -> Result<
    Seq<(YamlModel, YamlModel)>,
    ErrorModel,
> {
    match file {
        None => Ok(Seq::empty()),
        Some(bytes) => config_entries(bytes, path),
    }
}

/// The entries to write to a config file for its default role to point at a
/// provider and a model.
pub open spec fn entries_after(
    file: Option<Seq<u8>>,
    path: Seq<char>,
    provider_id: Seq<char>,
    model_id: Seq<char>,
) -> Result<Seq<(YamlModel, YamlModel)>, ErrorModel> {
    match entries_before(file, path) {
        Err(error) => Err(error),
        Ok(entries) => repointed(entries, provider_id, model_id, path),
    }
}

/// What is under the tags of a value is nested as the value is.
proof fn lemma_untagged_nested(value: YamlModel, depth: int, tagged: bool)
    requires
        yaml_nested(value, depth, tagged),
    ensures
        yaml_nested(untagged(value), depth, false),
    decreases value,
{
    if let YamlModel::Tagged(_, inner) = value {
        lemma_untagged_nested(*inner, depth, true);
    }
}

/// Takes the entries of a document.
pub fn take_entries(document: Yaml, path: &str) -> (r: Result<Vec<(Yaml, Yaml)>, AppError>)
    requires
        yaml_valid(document@),
    ensures
        match (document_entries(document@, path@), r) {
            (Ok(model), Ok(entries)) => mapping_model(entries@) == model,
            (Err(error), Err(e)) => e@ == error,
            _ => false,
        },
        r matches Ok(entries) ==> {
            &&& yaml_valid(YamlModel::Mapping(mapping_model(entries@)))
            &&& yaml_nested(document@, YAML_DEPTH as int, false) ==> yaml_nested(
                YamlModel::Mapping(mapping_model(entries@)),
                YAML_DEPTH as int,
                false,
            )
        },
{
    proof {
        lemma_untagged_valid(document@);
        if yaml_nested(document@, YAML_DEPTH as int, false) {
            lemma_untagged_nested(document@, YAML_DEPTH as int, false);
        }
    }
    if document.is_null() {
        let entries: Vec<(Yaml, Yaml)> = Vec::new();
        assert(mapping_model(entries@) =~= Seq::empty());
        return Ok(entries);
    }
    match document.into_mapping() {
        Some(entries) => Ok(entries),
        None => {
            let mut message: String = "OMP config root must be a mapping: ".to_owned();
            message.append(path);
            Err(AppError::Config(message))
        },
    }
}

/// Reads the entries of a config file.
pub fn read_config_mapping(bytes: Vec<u8>, path: &str) -> (r: Result<Vec<(Yaml, Yaml)>, AppError>)
    ensures
        match (config_entries(bytes@, path@), r) {
            (Ok(model), Ok(entries)) => mapping_model(entries@) == model,
            (Err(error), Err(e)) => e@ == error,
            _ => false,
        },
        r matches Ok(entries) ==> {
            &&& yaml_valid(YamlModel::Mapping(mapping_model(entries@)))
            &&& yaml_nested(
                YamlModel::Mapping(mapping_model(entries@)),
                YAML_DEPTH as int,
                false,
            )
        },
{
    let bytes: Vec<u8> = match read_file_limited(bytes, "OMP config", path) {
        Ok(bytes) => bytes,
        Err(error) => return Err(error),
    };
    let source: String = match read_text(bytes, "OMP config", path) {
        Ok(source) => source,
        Err(error) => return Err(error),
    };
    if trim(source.as_str()).is_empty() {
        let entries: Vec<(Yaml, Yaml)> = Vec::new();
        assert(mapping_model(entries@) =~= Seq::empty());
        return Ok(entries);
    }
    match read_yaml(source.as_str()) {
        Ok(document) => take_entries(document, path),
        Err(words) => {
            let mut message: String = "OMP config file is not valid YAML (".to_owned();
            message.append(path);
            message.append("): ");
            message.append(words.as_str());
            Err(AppError::Config(message))
        },
    }
}

/// The error for roles that are not a mapping.
fn roles_must_be_mapping(path: &str) -> (r: AppError)
    ensures
        r@ == roles_error(path@),
{
    let mut message: String = "OMP config 'modelRoles' must be a mapping: ".to_owned();
    message.append(path);
    AppError::Config(message)
}

/// The error for entries that cannot be written as YAML.
fn cannot_serialize(path: &str, words: &str) -> (r: AppError)
    ensures
        r@ == serialize_error(path@, words@),
{
    let mut message: String = "failed to serialize OMP config (".to_owned();
    message.append(path);
    message.append("): ");
    message.append(words);
    AppError::Config(message)
}

/// The default role among the entries of a config file.
pub fn find_role(mapping: &Vec<(Yaml, Yaml)>, path: &str) -> (r: Result<Option<String>, AppError>)
    ensures
        match (role_in(mapping_model(mapping@), path@), r) {
            (Ok(model), Ok(role)) => optional_text(role) == model,
            (Err(error), Err(e)) => e@ == error,
            _ => false,
        },
{
    let roles: &Yaml = match yaml_mapping_lookup(mapping, "modelRoles") {
        Some(roles) => roles,
        None => return Ok(None),
    };
    if roles.is_null() {
        return Ok(None);
    }
    let roles: &Vec<(Yaml, Yaml)> = match roles.as_mapping() {
        Some(roles) => roles,
        None => return Err(roles_must_be_mapping(path)),
    };
    match yaml_mapping_lookup(roles, "default") {
        None => Ok(None),
        Some(Yaml::Null) => Ok(None),
        Some(Yaml::String(role)) => Ok(Some(role.clone())),
        Some(_) => {
            let mut message: String =
                "OMP config 'modelRoles.default' must be a string: ".to_owned();
            message.append(path);
            Err(AppError::Config(message))
        },
    }
}

/// The default role in a config file: none where there is no file.
pub fn read_omp_default_role(file: Option<Vec<u8>>, path: &str) -> (r: Result<
    Option<String>,
    AppError,
>)
    ensures
        match (default_role(file_bytes(file), path@), r) {
            (Ok(model), Ok(role)) => optional_text(role) == model,
            (Err(error), Err(e)) => e@ == error,
            _ => false,
        },
{
    match file {
        None => Ok(None),
        Some(bytes) => match read_config_mapping(bytes, path) {
            Ok(mapping) => find_role(&mapping, path),
            Err(error) => Err(error),
        },
    }
}

/// The role for a provider and a model, with the tail of the role before.
pub fn compose_role(provider_id: &str, model_id: &str, previous: Option<String>) -> (r: String)
    ensures
        r@ == role_text(provider_id@, model_id@, optional_text(previous)),
{
    let mut role: String = provider_id.to_owned();
    role.append("/");
    role.append(model_id);
    if let Some(previous) = previous {
        proof {
            lemma_first_where_holds(previous@, is_char(':'));
        }
        if let Some(i) = find_char(previous.as_str(), ':') {
            let end: usize = previous.as_str().unicode_len();
            role.append(previous.as_str().substring_char(i, end));
        }
    }
    assert(role@ =~= role_text(provider_id@, model_id@, optional_text(previous)));
    role
}

/// The text to write to a config file for its default role to point at a
/// provider and a model.
pub open spec fn role_written(
    file: Option<Seq<u8>>,
    path: Seq<char>,
    provider_id: Seq<char>,
    model_id: Seq<char>,
) -> Result<Seq<char>, ErrorModel> {
    match entries_after(file, path, provider_id, model_id) {
        Err(error) => Err(error),
        Ok(entries) => config_text(entries, path),
    }
}

/// With roles there are roles, and no entry but theirs differs.
proof fn lemma_with_roles(entries: Seq<(YamlModel, YamlModel)>)
    ensures
        ({
            let all = with_roles(entries);
            let i = yaml_index(all, "modelRoles"@) as int;
            &&& i == yaml_index(entries, "modelRoles"@)
            &&& i < all.len()
            &&& entries.len() <= all.len() <= entries.len() + 1
            &&& all.len() > entries.len() ==> i == entries.len()
            &&& forall|j: int| 0 <= j < entries.len() ==> #[trigger] all[j] == entries[j]
            &&& yaml_lookup(entries, "modelRoles"@) is None ==> all[i] == (
                YamlModel::String("modelRoles"@),
                YamlModel::Mapping(Seq::empty()),
            )
            &&& yaml_valid(YamlModel::Mapping(entries)) ==> yaml_valid(YamlModel::Mapping(all))
        }),
{
    let key = "modelRoles"@;
    let all = with_roles(entries);
    lemma_first_where_holds(entries, reads_as(key));
    if yaml_lookup(entries, key) is None {
        let none = YamlModel::Mapping(Seq::empty());
        assert forall|j: int| 0 <= j < entries.len() implies !is_key(key)(#[trigger] entries[j]) by {
            assert(!reads_as(key)(entries[j]));
        }
        lemma_first_where(entries, is_key(key), entries.len() as int);
        lemma_with_yaml_entry(entries, key, none);
        if yaml_valid(YamlModel::Mapping(entries)) {
            lemma_with_yaml_entry_valid(entries, key, none);
        }
        assert forall|j: int| 0 <= j < entries.len() implies !reads_as(key)(#[trigger] all[j]) by {
            assert(all[j] == entries[j]);
        }
        lemma_first_where(all, reads_as(key), entries.len() as int);
    }
}

/// Setting a role in valid entries gives valid entries.
proof fn lemma_with_role_valid(
    entries: Seq<(YamlModel, YamlModel)>,
    role: Seq<char>,
    path: Seq<char>,
)
    requires
        yaml_valid(YamlModel::Mapping(entries)),
    ensures
        with_role(entries, role, path) matches Ok(after) ==> yaml_valid(YamlModel::Mapping(after)),
{
    let all = with_roles(entries);
    let i = yaml_index(all, "modelRoles"@) as int;
    lemma_with_roles(entries);
    if let Some(roles) = mapping_of(all[i].1) {
        let new_roles = with_yaml_entry(roles, "default"@, YamlModel::String(role));
        lemma_untagged_valid(all[i].1);
        lemma_with_yaml_entry_valid(roles, "default"@, YamlModel::String(role));
        lemma_with_mapping(all[i].1, new_roles);
        let after = with_role(entries, role, path)->Ok_0;
        assert forall|j: int| 0 <= j < after.len() implies yaml_valid((#[trigger] after[j]).0)
            && yaml_valid(after[j].1) by {
            assert(yaml_valid(all[j].0) && yaml_valid(all[j].1));
        }
        assert forall|a: int, b: int| 0 <= a < b < after.len() implies !yaml_same(
            (#[trigger] after[a]).0,
            (#[trigger] after[b]).0,
        ) by {
            assert(after[a].0 == all[a].0);
            assert(after[b].0 == all[b].0);
        }
    }
}

/// Points the default role among the entries of a config file at a provider and
/// a model. The tail of the role before is kept.
pub fn point_default_role(
    mapping: Vec<(Yaml, Yaml)>,
    provider_id: &str,
    model_id: &str,
    path: &str,
) -> (r: Result<Vec<(Yaml, Yaml)>, AppError>)
    requires
        yaml_valid(YamlModel::Mapping(mapping_model(mapping@))),
    ensures
        match (repointed(mapping_model(mapping@), provider_id@, model_id@, path@), r) {
            (Ok(model), Ok(after)) => mapping_model(after@) == model && yaml_valid(
                YamlModel::Mapping(model),
            ),
            (Err(error), Err(e)) => e@ == error,
            _ => false,
        },
{
    let ghost before = mapping_model(mapping@);
    let previous: Option<String> = match find_role(&mapping, path) {
        Ok(previous) => previous,
        Err(error) => return Err(error),
    };
    let role: String = compose_role(provider_id, model_id, previous);
    let ghost text = role@;
    proof {
        lemma_with_roles(before);
        lemma_with_role_valid(before, text, path@);
    }
    let mut mapping: Vec<(Yaml, Yaml)> = mapping;
    if yaml_mapping_lookup(&mapping, "modelRoles").is_none() {
        let none: Vec<(Yaml, Yaml)> = Vec::new();
        proof {
            lemma_mapping_model(none);
            assert(mapping_model(none@) =~= Seq::empty());
        }
        set_yaml(&mut mapping, "modelRoles", Yaml::Mapping(none));
    }
    assert(mapping_model(mapping@) == with_roles(before));
    let roles: &mut Yaml = match yaml_mapping_lookup_mut(&mut mapping, "modelRoles") {
        Some(roles) => roles,
        None => return Err(roles_must_be_mapping(path)),
    };
    match roles.as_mapping_mut() {
        Some(roles) => {
            set_yaml(roles, "default", Yaml::String(role));
        },
        None => return Err(roles_must_be_mapping(path)),
    }
    Ok(mapping)
}

/// The roles among the entries of a config file: none where there is no such
/// entry.
pub open spec fn roles_in(entries: Seq<(YamlModel, YamlModel)>) -> Option<
    Seq<(YamlModel, YamlModel)>,
> {
    match yaml_lookup(entries, "modelRoles"@) {
        None => Some(Seq::empty()),
        Some(roles) => mapping_of(roles),
    }
}

/// The first key that is the string `default`, if there is one, is not tagged.
pub open spec fn untagged_default(roles: Seq<(YamlModel, YamlModel)>) -> bool {
    let i = yaml_index(roles, "default"@) as int;
    i < roles.len() ==> roles[i].0 is String
}

/// Every entry but that of the roles is preserved, where it stands, and so is
/// every role but the default one.
pub proof fn law_other_keys_are_preserved(
    entries: Seq<(YamlModel, YamlModel)>,
    role: Seq<char>,
    path: Seq<char>,
)
    requires
        with_role(entries, role, path) is Ok,
    ensures
        ({
            let after = with_role(entries, role, path)->Ok_0;
            let i = yaml_index(entries, "modelRoles"@) as int;
            &&& roles_in(entries) is Some
            &&& roles_in(after) is Some
            &&& entries.len() <= after.len() <= entries.len() + 1
            &&& after.len() > entries.len() ==> i == entries.len()
            &&& i == yaml_index(after, "modelRoles"@)
            &&& forall|j: int|
                0 <= j < entries.len() && j != i ==> #[trigger] after[j] == entries[j]
            &&& i < entries.len() ==> after[i].0 == entries[i].0
            &&& roles_in(after)->0 == with_yaml_entry(
                roles_in(entries)->0,
                "default"@,
                YamlModel::String(role),
            )
            &&& forall|j: int|
                0 <= j < roles_in(entries)->0.len() && roles_in(entries)->0[j].0
                    != YamlModel::String("default"@) ==> #[trigger] roles_in(after)->0[j]
                    == roles_in(entries)->0[j]
        }),
{
    let key = "modelRoles"@;
    let all = with_roles(entries);
    let i = yaml_index(all, key) as int;
    lemma_with_roles(entries);
    let roles = mapping_of(all[i].1)->0;
    let new_roles = with_yaml_entry(roles, "default"@, YamlModel::String(role));
    let after = with_role(entries, role, path)->Ok_0;
    lemma_with_mapping(all[i].1, new_roles);
    lemma_first_where_holds(all, reads_as(key));
    assert forall|j: int| 0 <= j < i implies !reads_as(key)(#[trigger] after[j]) by {
        assert(after[j] == all[j]);
    }
    assert(reads_as(key)(all[i]));
    lemma_first_where(after, reads_as(key), i);
    lemma_with_yaml_entry(roles, "default"@, YamlModel::String(role));
    lemma_first_where_holds(roles, is_key("default"@));
}

/// Once a role is set it is the default role, unless the first key that is the
/// string `default` is tagged.
pub proof fn law_set_role_is_read(
    entries: Seq<(YamlModel, YamlModel)>,
    role: Seq<char>,
    path: Seq<char>,
)
    requires
        with_role(entries, role, path) is Ok,
        roles_in(entries) matches Some(roles) ==> untagged_default(roles),
    ensures
        role_in(with_role(entries, role, path)->Ok_0, path) == Ok::<Option<Seq<char>>, ErrorModel>(
            Some(role),
        ),
{
    law_other_keys_are_preserved(entries, role, path);
    let after = with_role(entries, role, path)->Ok_0;
    let roles = roles_in(entries)->0;
    let key = "default"@;
    let value = YamlModel::String(role);
    let new_roles = with_yaml_entry(roles, key, value);
    let i = first_where(roles, is_key(key)) as int;
    lemma_with_yaml_entry(roles, key, value);
    lemma_first_where_holds(roles, is_key(key));
    lemma_first_where_holds(roles, reads_as(key));
    let first = yaml_index(roles, key) as int;
    if first < roles.len() {
        assert(reads_as(key)(roles[first]));
        assert(is_key(key)(roles[first]));
    }
    assert forall|j: int| 0 <= j < i implies !reads_as(key)(#[trigger] new_roles[j]) by {
        assert(new_roles[j] == roles[j]);
        assert(j < first);
    }
    lemma_first_where(new_roles, reads_as(key), i);
    lemma_with_roles(entries);
    lemma_first_where_holds(after, reads_as("modelRoles"@));
}

/// The first colon of a text with no colon in front of another text.
proof fn lemma_first_colon(front: Seq<char>, back: Seq<char>)
    requires
        !front.contains(':'),
    ensures
        first_of(front + back, ':') == front.len() + first_of(back, ':'),
{
    lemma_first_where_holds(back, is_char(':'));
    let whole = front + back;
    let i = front.len() + first_of(back, ':');
    assert forall|j: int| 0 <= j < i implies !is_char(':')(#[trigger] whole[j]) by {
        if j < front.len() {
            assert(front.contains(front[j]));
        } else {
            assert(whole[j] == back[j - front.len()]);
        }
    }
    lemma_first_where(whole, is_char(':'), i as int);
}

/// The tail of a role is carried over to the next one, if there is no colon in
/// the provider and in the model.
pub proof fn law_tail_is_carried_over(
    provider_id: Seq<char>,
    model_id: Seq<char>,
    previous: Option<Seq<char>>,
)
    requires
        !provider_id.contains(':'),
        !model_id.contains(':'),
    ensures
        tail_of(Some(role_text(provider_id, model_id, previous))) == tail_of(previous),
{
    let front = provider_id + "/"@ + model_id;
    let back = tail_of(previous);
    reveal_strlit("/");
    assert(!front.contains(':')) by {
        assert forall|j: int| 0 <= j < front.len() implies front[j] != ':' by {
            if j < provider_id.len() {
                assert(provider_id.contains(provider_id[j]));
            } else if j > provider_id.len() {
                assert(model_id.contains(model_id[j - provider_id.len() - 1]));
            }
        }
    }
    lemma_first_colon(front, back);
    if let Some(role) = previous {
        lemma_first_where_holds(role, is_char(':'));
        if back.len() > 0 {
            assert(back[0] == ':');
            lemma_first_where(back, is_char(':'), 0);
        } else {
            lemma_first_where(back, is_char(':'), 0);
        }
    } else {
        lemma_first_where(back, is_char(':'), 0);
    }
    assert((front + back).skip(front.len() as int) =~= back);
}

/// A role without a colon has no tail, and neither has no role: what is written
/// after it is the provider, a slash and the model.
pub proof fn law_no_tail_gives_bare_role(
    provider_id: Seq<char>,
    model_id: Seq<char>,
    previous: Option<Seq<char>>,
)
    requires
        previous matches Some(role) ==> !role.contains(':'),
    ensures
        role_text(provider_id, model_id, previous) == provider_id + "/"@ + model_id,
{
    if let Some(role) = previous {
        lemma_first_where_holds(role, is_char(':'));
        if first_of(role, ':') < role.len() {
            assert(role.contains(role[first_of(role, ':') as int]));
        }
        assert(tail_of(previous) =~= Seq::empty());
    }
    assert(role_text(provider_id, model_id, previous) =~= provider_id + "/"@ + model_id);
}

/// The mapping in a safe value is safe, and a safe mapping in its place leaves
/// the value safe.
proof fn lemma_safe_mapping(
    value: YamlModel,
    depth: int,
    before: Seq<(YamlModel, YamlModel)>,
    after: Seq<(YamlModel, YamlModel)>,
)
    requires
        yaml_safe(value, depth, false),
        mapping_of(value) == Some(before),
    ensures
        yaml_safe(YamlModel::Mapping(before), depth, value is Tagged),
        yaml_safe(YamlModel::Mapping(after), depth, value is Tagged) ==> yaml_safe(
            with_mapping(value, after),
            depth,
            false,
        ),
{
    if let YamlModel::Tagged(tag, inner) = value {
        reveal_with_fuel(yaml_safe, 2);
        assert(!(*inner is Tagged));
        assert(untagged(value) == *inner) by {
            assert(untagged(*inner) == *inner);
        }
        let new = with_mapping(value, after);
        assert(new == YamlModel::Tagged(tag, Box::new(with_mapping(*inner, after))));
        assert(with_mapping(*inner, after) == YamlModel::Mapping(after));
    }
}

/// Setting a role twice leaves what setting the second one leaves.
proof fn lemma_with_role_twice(
    entries: Seq<(YamlModel, YamlModel)>,
    first: Seq<char>,
    second: Seq<char>,
    path: Seq<char>,
)
    requires
        with_role(entries, first, path) is Ok,
    ensures
        with_role(with_role(entries, first, path)->Ok_0, second, path) == with_role(
            entries,
            second,
            path,
        ),
{
    let key = "modelRoles"@;
    let all = with_roles(entries);
    let i = yaml_index(all, key) as int;
    let once = with_role(entries, first, path)->Ok_0;
    let roles = mapping_of(all[i].1)->0;
    let (a, b) = (YamlModel::String(first), YamlModel::String(second));
    let roles_once = with_yaml_entry(roles, "default"@, a);
    lemma_with_roles(entries);
    law_other_keys_are_preserved(entries, first, path);
    assert(with_roles(once) == once);
    lemma_with_mapping(all[i].1, roles_once);
    lemma_with_mapping_twice(all[i].1, roles_once, with_yaml_entry(roles, "default"@, b));
    lemma_with_yaml_entry(roles, "default"@, a);
    lemma_first_where_holds(roles, is_key("default"@));
    let k = first_where(roles, is_key("default"@)) as int;
    assert forall|j: int| 0 <= j < k implies !is_key("default"@)(#[trigger] roles_once[j]) by {
        assert(roles_once[j] == roles[j]);
        assert(!is_key("default"@)(roles[j]));
    }
    lemma_first_where(roles_once, is_key("default"@), k);
    assert(with_yaml_entry(roles_once, "default"@, b) =~= with_yaml_entry(roles, "default"@, b));
    assert(with_role(once, second, path)->Ok_0 =~= with_role(entries, second, path)->Ok_0);
}

/// What tail a default role has, once a role is set: that of the role, or, where
/// the first key that is the string `default` is tagged, that of the role before.
proof fn lemma_tail_after_set(
    entries: Seq<(YamlModel, YamlModel)>,
    role: Seq<char>,
    path: Seq<char>,
)
    requires
        with_role(entries, role, path) is Ok,
        role_in(entries, path) is Ok,
        tail_of(Some(role)) == tail_of(role_in(entries, path)->Ok_0),
    ensures
        role_in(with_role(entries, role, path)->Ok_0, path) is Ok,
        tail_of(role_in(with_role(entries, role, path)->Ok_0, path)->Ok_0) == tail_of(
            role_in(entries, path)->Ok_0,
        ),
{
    let roles = roles_in(entries)->0;
    law_other_keys_are_preserved(entries, role, path);
    if untagged_default(roles) {
        law_set_role_is_read(entries, role, path);
    } else {
        let key = "default"@;
        let value = YamlModel::String(role);
        let after = with_yaml_entry(roles, key, value);
        let first = yaml_index(roles, key) as int;
        lemma_with_yaml_entry(roles, key, value);
        lemma_first_where_holds(roles, reads_as(key));
        lemma_first_where_holds(roles, is_key(key));
        let k = first_where(roles, is_key(key)) as int;
        assert(first < roles.len());
        assert(k > first) by {
            if k < roles.len() {
                assert(is_key(key)(roles[k]));
                assert(reads_as(key)(roles[k]));
            }
        }
        assert forall|j: int| 0 <= j < first implies !reads_as(key)(#[trigger] after[j]) by {
            assert(after[j] == roles[j]);
        }
        assert(after[first] == roles[first]);
        lemma_first_where(after, reads_as(key), first);
        lemma_with_roles(entries);
        let done = with_role(entries, role, path)->Ok_0;
        lemma_first_where_holds(done, reads_as("modelRoles"@));
        lemma_first_where_holds(entries, reads_as("modelRoles"@));
    }
}

/// Pointing the role at one provider and model and then at another leaves the
/// entries that pointing it at the other at once leaves, if there is no colon in
/// the first provider and model. So pointing it twice at the same changes nothing
/// the second time.
pub proof fn law_last_role_counts(
    entries: Seq<(YamlModel, YamlModel)>,
    provider_1: Seq<char>,
    model_1: Seq<char>,
    provider_2: Seq<char>,
    model_2: Seq<char>,
    path: Seq<char>,
)
    requires
        !provider_1.contains(':'),
        !model_1.contains(':'),
        repointed(entries, provider_1, model_1, path) is Ok,
    ensures
        repointed(
            repointed(entries, provider_1, model_1, path)->Ok_0,
            provider_2,
            model_2,
            path,
        ) == repointed(entries, provider_2, model_2, path),
{
    let previous = role_in(entries, path)->Ok_0;
    let first = role_text(provider_1, model_1, previous);
    law_tail_is_carried_over(provider_1, model_1, previous);
    lemma_tail_after_set(entries, first, path);
    lemma_with_role_twice(entries, first, role_text(provider_2, model_2, previous), path);
}

/// A config file that was written for one provider and model, and is then written
/// for another, holds what it would hold had it been written for the other at
/// once, if there is no colon in the first provider and model. What was written
/// first need not be read back: it is enough that it is not read as other entries
/// and that the second write succeeds.
pub proof fn law_last_write_counts(
    file: Option<Seq<u8>>,
    written: Seq<u8>,
    provider_1: Seq<char>,
    model_1: Seq<char>,
    provider_2: Seq<char>,
    model_2: Seq<char>,
    path: Seq<char>,
)
    requires
        !provider_1.contains(':'),
        !model_1.contains(':'),
        entries_after(file, path, provider_1, model_1) is Ok,
        reads_nothing_else(written, entries_after(file, path, provider_1, model_1)),
    ensures
        entries_after(Some(written), path, provider_2, model_2) is Ok ==> entries_after(
            Some(written),
            path,
            provider_2,
            model_2,
        ) == entries_after(file, path, provider_2, model_2),
        role_written(Some(written), path, provider_2, model_2) is Ok ==> role_written(
            Some(written),
            path,
            provider_2,
            model_2,
        ) == role_written(file, path, provider_2, model_2),
{
    let entries = entries_before(file, path)->Ok_0;
    assert(config_entries(written, path) is Err || config_entries(written, path) == entries_after(
        file,
        path,
        provider_1,
        model_1,
    ));
    law_last_role_counts(entries, provider_1, model_1, provider_2, model_2, path);
}

/// A safe value under a string leaves a mapping safe.
proof fn lemma_with_yaml_entry_safe(
    entries: Seq<(YamlModel, YamlModel)>,
    key: Seq<char>,
    value: YamlModel,
    depth: int,
    tagged: bool,
)
    requires
        yaml_safe(YamlModel::Mapping(entries), depth, tagged),
        yaml_safe(value, depth - 1, false),
    ensures
        yaml_safe(YamlModel::Mapping(with_yaml_entry(entries, key, value)), depth, tagged),
{
    let before = YamlModel::Mapping(entries);
    let after = with_yaml_entry(entries, key, value);
    let i = first_where(entries, is_key(key)) as int;
    lemma_with_yaml_entry(entries, key, value);
    lemma_first_where_holds(entries, is_key(key));
    assert forall|j: int| 0 <= j < after.len() implies yaml_safe(
        (#[trigger] after[j]).0,
        depth - 1,
        false,
    ) && yaml_safe(after[j].1, depth - 1, false) by {
        if j != i {
            assert(after[j] == before->Mapping_0[j]);
        }
    }
    assert(after.len() == 1 ==> i == 0);
}

/// Entries that are safe to write are so still, once the default role points
/// at a provider and a model. That role is then the default one, unless the first
/// key that is the string `default` is tagged.
pub proof fn law_repointing_keeps_text_safe(
    entries: Seq<(YamlModel, YamlModel)>,
    provider_id: Seq<char>,
    model_id: Seq<char>,
    path: Seq<char>,
)
    requires
        yaml_safe(YamlModel::Mapping(entries), YAML_DEPTH as int, false),
        repointed(entries, provider_id, model_id, path) is Ok,
    ensures
        yaml_safe(
            YamlModel::Mapping(repointed(entries, provider_id, model_id, path)->Ok_0),
            YAML_DEPTH as int,
            false,
        ),
        untagged_default(roles_in(entries)->0) ==> role_in(
            repointed(entries, provider_id, model_id, path)->Ok_0,
            path,
        ) == Ok::<Option<Seq<char>>, ErrorModel>(
            Some(role_text(provider_id, model_id, role_in(entries, path)->Ok_0)),
        ),
{
    let depth = YAML_DEPTH as int;
    let role = role_text(provider_id, model_id, role_in(entries, path)->Ok_0);
    let after = repointed(entries, provider_id, model_id, path)->Ok_0;
    let key = "modelRoles"@;
    let none = YamlModel::Mapping(Seq::empty());
    lemma_with_roles(entries);
    law_other_keys_are_preserved(entries, role, path);
    if untagged_default(roles_in(entries)->0) {
        law_set_role_is_read(entries, role, path);
    }
    let all = with_roles(entries);
    let i = yaml_index(all, key) as int;
    if yaml_lookup(entries, key) is None {
        lemma_with_yaml_entry_safe(entries, key, none, depth, false);
    }
    let whole = YamlModel::Mapping(all);
    assert(yaml_safe(whole, depth, false));
    assert(yaml_safe(whole->Mapping_0[i].1, depth - 1, false));
    let value = all[i].1;
    let roles = mapping_of(value)->0;
    let new_roles = with_yaml_entry(roles, "default"@, YamlModel::String(role));
    lemma_safe_mapping(value, depth - 1, roles, new_roles);
    lemma_with_yaml_entry_safe(
        roles,
        "default"@,
        YamlModel::String(role),
        depth - 1,
        value is Tagged,
    );
    assert forall|j: int| 0 <= j < after.len() implies yaml_safe(
        (#[trigger] after[j]).0,
        depth - 1,
        false,
    ) && yaml_safe(after[j].1, depth - 1, false) by {
        assert(after[j].0 == whole->Mapping_0[j].0);
        if j != i {
            assert(after[j] == whole->Mapping_0[j]);
        }
    }
}

/// A value under a string leaves a mapping nested as it was, and its tags plain.
proof fn lemma_with_yaml_entry_nested(
    entries: Seq<(YamlModel, YamlModel)>,
    key: Seq<char>,
    value: YamlModel,
    depth: int,
)
    requires
        yaml_nested(YamlModel::Mapping(entries), depth, false),
        yaml_nested(value, depth - 1, false),
        plain_tags(YamlModel::Mapping(entries)),
        plain_tags(value),
    ensures
        yaml_nested(YamlModel::Mapping(with_yaml_entry(entries, key, value)), depth, false),
        plain_tags(YamlModel::Mapping(with_yaml_entry(entries, key, value))),
{
    let before = YamlModel::Mapping(entries);
    let after = with_yaml_entry(entries, key, value);
    let i = first_where(entries, is_key(key)) as int;
    lemma_with_yaml_entry(entries, key, value);
    lemma_first_where_holds(entries, is_key(key));
    assert forall|j: int| 0 <= j < after.len() implies yaml_nested(
        (#[trigger] after[j]).0,
        depth - 1,
        false,
    ) && yaml_nested(after[j].1, depth - 1, false) && plain_tags(after[j].0) && plain_tags(
        after[j].1,
    ) by {
        if j != i {
            assert(after[j] == before->Mapping_0[j]);
        }
    }
}

/// Other entries in a value leave it nested as it was, and its tags plain.
proof fn lemma_with_mapping_nested(
    value: YamlModel,
    entries: Seq<(YamlModel, YamlModel)>,
    depth: int,
    tagged: bool,
)
    requires
        yaml_nested(value, depth, tagged),
        plain_tags(value),
        yaml_nested(YamlModel::Mapping(entries), depth, false),
        plain_tags(YamlModel::Mapping(entries)),
    ensures
        yaml_nested(with_mapping(value, entries), depth, tagged),
        plain_tags(with_mapping(value, entries)),
    decreases value,
{
    if let YamlModel::Tagged(_, inner) = value {
        lemma_with_mapping_nested(*inner, entries, depth, true);
    }
}

/// The mapping under the tags of a value has plain tags where the value has.
proof fn lemma_untagged_plain(value: YamlModel)
    requires
        plain_tags(value),
    ensures
        plain_tags(untagged(value)),
    decreases value,
{
    if let YamlModel::Tagged(_, inner) = value {
        lemma_untagged_plain(*inner);
    }
}

/// Entries that are nested as what is read, and whose tags are plain, are so
/// still, once the default role points at a provider and a model.
pub proof fn law_repointing_keeps_nesting(
    entries: Seq<(YamlModel, YamlModel)>,
    provider_id: Seq<char>,
    model_id: Seq<char>,
    path: Seq<char>,
)
    requires
        yaml_nested(YamlModel::Mapping(entries), YAML_DEPTH as int, false),
        plain_tags(YamlModel::Mapping(entries)),
        repointed(entries, provider_id, model_id, path) is Ok,
    ensures
        yaml_nested(
            YamlModel::Mapping(repointed(entries, provider_id, model_id, path)->Ok_0),
            YAML_DEPTH as int,
            false,
        ),
        plain_tags(YamlModel::Mapping(repointed(entries, provider_id, model_id, path)->Ok_0)),
{
    let depth = YAML_DEPTH as int;
    let role = YamlModel::String(role_text(provider_id, model_id, role_in(entries, path)->Ok_0));
    let after = repointed(entries, provider_id, model_id, path)->Ok_0;
    let key = "modelRoles"@;
    lemma_with_roles(entries);
    let all = with_roles(entries);
    let i = yaml_index(all, key) as int;
    if yaml_lookup(entries, key) is None {
        lemma_with_yaml_entry_nested(entries, key, YamlModel::Mapping(Seq::empty()), depth);
    }
    let whole = YamlModel::Mapping(all);
    assert(yaml_nested(whole, depth, false) && plain_tags(whole));
    assert(yaml_nested(whole->Mapping_0[i].1, depth - 1, false));
    assert(plain_tags(whole->Mapping_0[i].1));
    let value = all[i].1;
    let roles = mapping_of(value)->0;
    lemma_untagged_nested(value, depth - 1, false);
    lemma_untagged_plain(value);
    lemma_with_yaml_entry_nested(roles, "default"@, role, depth - 1);
    lemma_with_mapping_nested(value, with_yaml_entry(roles, "default"@, role), depth - 1, false);
    assert forall|j: int| 0 <= j < after.len() implies yaml_nested(
        (#[trigger] after[j]).0,
        depth - 1,
        false,
    ) && yaml_nested(after[j].1, depth - 1, false) && plain_tags(after[j].0) && plain_tags(
        after[j].1,
    ) by {
        assert(after[j].0 == whole->Mapping_0[j].0);
        if j != i {
            assert(after[j] == whole->Mapping_0[j]);
        }
    }
}

/// What `serde_yaml` reads out of a text that is more than white space is what
/// the file that holds it has, if the file is within the limit. Nothing is read
/// where it is not, or where `serde_yaml` reads nothing.
proof fn lemma_text_is_read(text: Seq<char>, entries: Seq<(YamlModel, YamlModel)>, path: Seq<char>)
    requires
        trimmed(text).len() > 0,
    ensures
        ({
            let read = config_entries(encode_utf8(text), path);
            let same = yaml_read(text) == Ok::<YamlModel, Seq<char>>(YamlModel::Mapping(entries));
            &&& same && encode_utf8(text).len() <= MAX_OMP_FILE_BYTES ==> read == Ok::<
                Seq<(YamlModel, YamlModel)>,
                ErrorModel,
            >(entries)
            &&& same || yaml_read(text) is Err ==> read is Err || read == Ok::<
                Seq<(YamlModel, YamlModel)>,
                ErrorModel,
            >(entries)
        }),
{
    encode_utf8_valid_utf8(text);
    encode_utf8_decode_utf8(text);
}

/// What is read from a file, if anything, is the entries that were expected.
pub open spec fn reads_nothing_else(
    bytes: Seq<u8>,
    entries: Result<Seq<(YamlModel, YamlModel)>, ErrorModel>,
) -> bool {
    forall|path: Seq<char>| #[trigger]
        config_entries(bytes, path) is Err || config_entries(bytes, path) == entries
}

/// The text for the entries of a config file.
pub fn write_config(mapping: Vec<(Yaml, Yaml)>, path: &str) -> (r: Result<String, AppError>)
    requires
        yaml_valid(YamlModel::Mapping(mapping_model(mapping@))),
    ensures
        match (config_text(mapping_model(mapping@), path@), r) {
            (Ok(model), Ok(text)) => text@ == model,
            (Err(error), Err(e)) => e@ == error,
            _ => false,
        },
        ({
            let entries = mapping_model(mapping@);
            let document = YamlModel::Mapping(entries);
            yaml_size(document) <= YAML_SIZE && yaml_safe(document, YAML_DEPTH as int, false)
                ==> {
                &&& r is Ok
                &&& encode_utf8(r->Ok_0@).len() <= MAX_OMP_FILE_BYTES ==> forall|
                    other: Seq<char>,
                | #[trigger]
                    config_entries(encode_utf8(r->Ok_0@), other) == Ok::<
                        Seq<(YamlModel, YamlModel)>,
                        ErrorModel,
                    >(entries)
            }
        }),
        ({
            let entries = mapping_model(mapping@);
            let document = YamlModel::Mapping(entries);
            yaml_nested(document, YAML_DEPTH as int, false) && plain_tags(document) && r is Ok
                ==> reads_nothing_else(encode_utf8(r->Ok_0@), Ok(entries))
        }),
{
    let ghost entries = mapping_model(mapping@);
    proof {
        lemma_mapping_model(mapping);
    }
    let document: Yaml = Yaml::Mapping(mapping);
    if document.spend_size(YAML_SIZE).is_none() {
        return Err(cannot_serialize(path, "the document is too large"));
    }
    match write_yaml(document) {
        Ok(text) => {
            proof {
                let bytes = encode_utf8(text@);
                let document = YamlModel::Mapping(entries);
                let expected = Ok::<Seq<(YamlModel, YamlModel)>, ErrorModel>(entries);
                let safe = yaml_safe(document, YAML_DEPTH as int, false);
                let legible = yaml_nested(document, YAML_DEPTH as int, false) && plain_tags(
                    document,
                );
                assert forall|other: Seq<char>|
                    {
                        &&& safe && bytes.len() <= MAX_OMP_FILE_BYTES ==> #[trigger] config_entries(
                            bytes,
                            other,
                        ) == expected
                        &&& legible ==> config_entries(bytes, other) is Err || config_entries(
                            bytes,
                            other,
                        ) == expected
                    } by {
                    lemma_text_is_read(text@, entries, other);
                }
            }
            Ok(text)
        },
        Err(words) => Err(cannot_serialize(path, words.as_str())),
    }
}

/// The text to write to a config file for its default role to point at a
/// provider and a model. The tail of the role before is kept.
///
/// Where the entries of the file are [`yaml_safe`] there is such a text, unless
/// the new entries are too large. A file that holds it, if it is within the limit,
/// has the new entries, and the new role for its default, unless the first key
/// that is the string `default` is tagged.
///
/// Where the entries are not safe there may be no such text, or one that cannot
/// be read. It is never read as other entries, if the tags of the file are plain.
pub fn write_omp_default_role(
    provider_id: &str,
    model_id: &str,
    file: Option<Vec<u8>>,
    path: &str,
) -> (r: Result<String, AppError>)
    ensures
        match (role_written(file_bytes(file), path@, provider_id@, model_id@), r) {
            (Ok(model), Ok(text)) => text@ == model,
            (Err(error), Err(e)) => e@ == error,
            _ => false,
        },
        ({
            let before = entries_before(file_bytes(file), path@);
            let after = entries_after(file_bytes(file), path@, provider_id@, model_id@);
            let role = role_text(
                provider_id@,
                model_id@,
                default_role(file_bytes(file), path@)->Ok_0,
            );
            before is Ok && after is Ok && yaml_safe(
                YamlModel::Mapping(before->Ok_0),
                YAML_DEPTH as int,
                false,
            ) && yaml_size(YamlModel::Mapping(after->Ok_0)) <= YAML_SIZE ==> {
                &&& r is Ok
                &&& encode_utf8(r->Ok_0@).len() <= MAX_OMP_FILE_BYTES ==> forall|other: Seq<char>|
                    {
                        &&& #[trigger] config_entries(encode_utf8(r->Ok_0@), other) == after
                        &&& untagged_default(roles_in(before->Ok_0)->0) ==> default_role(
                            Some(encode_utf8(r->Ok_0@)),
                            other,
                        ) == Ok::<Option<Seq<char>>, ErrorModel>(Some(role))
                    }
            }
        }),
        ({
            let before = entries_before(file_bytes(file), path@);
            let after = entries_after(file_bytes(file), path@, provider_id@, model_id@);
            r is Ok && plain_tags(YamlModel::Mapping(before->Ok_0)) ==> reads_nothing_else(
                encode_utf8(r->Ok_0@),
                after,
            )
        }),
{
    let mapping: Vec<(Yaml, Yaml)> = match file {
        Some(bytes) => match read_config_mapping(bytes, path) {
            Ok(mapping) => mapping,
            Err(error) => return Err(error),
        },
        None => Vec::new(),
    };
    let ghost before = mapping_model(mapping@);
    proof {
        if file is None {
            assert(before =~= Seq::empty());
            assert(yaml_lookup(before, "modelRoles"@) is None);
        }
        if yaml_safe(YamlModel::Mapping(before), YAML_DEPTH as int, false) && repointed(
            before,
            provider_id@,
            model_id@,
            path@,
        ) is Ok {
            law_repointing_keeps_text_safe(before, provider_id@, model_id@, path@);
        }
        if plain_tags(YamlModel::Mapping(before)) && repointed(
            before,
            provider_id@,
            model_id@,
            path@,
        ) is Ok {
            law_repointing_keeps_nesting(before, provider_id@, model_id@, path@);
        }
    }
    let mapping: Vec<(Yaml, Yaml)> = match point_default_role(
        mapping,
        provider_id,
        model_id,
        path,
    ) {
        Ok(mapping) => mapping,
        Err(error) => return Err(error),
    };
    write_config(mapping, path)
}

} // verus!
