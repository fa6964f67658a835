//! What a caller gets for each request about the default role of `config.yml`,
//! told by characters, by the places at which the entries stand, and by what is
//! returned.

use vstd::prelude::*;
use vstd::utf8::{encode_utf8, encode_utf8_decode_utf8, encode_utf8_valid_utf8, valid_utf8};

use crate::config::{
    compose_role, config_entries, document_entries, entries_after, entries_before, find_role,
    point_default_role, read_config_mapping, read_omp_default_role, repointed, role_in, role_text,
    take_entries, with_role, with_roles, write_config, write_omp_default_role,
};
use crate::entry_laws::{
    law_new_yaml_value_is_put_at_the_end, law_yaml_lookup_finds_nothing_else,
    law_yaml_lookup_finds_what_stands, law_yaml_value_is_put_in_place, reads_at, reads_nowhere,
    written_at, written_nowhere,
};
use crate::error::{AppError, ErrorModel};
use crate::files::file_bytes;
use crate::text::{is_char, lemma_first_where_holds, utf8_error};
use crate::text_laws::{blank, law_first_place_is_found, law_only_white_space_trims_to_nothing};
use crate::yaml::{
    is_key, mapping_model, untagged, with_mapping, with_yaml_entry, yaml_size, Yaml, YamlModel,
};
use crate::yaml_text::{yaml_read, yaml_write};

verus! {

/// The role for a provider and a model, after a previous one: the provider, a
/// slash, the model, and what the previous role has from its first colon on.
pub open spec fn role_follows(
    role: Seq<char>,
    provider: Seq<char>,
    model: Seq<char>,
    previous: Option<Seq<char>>,
) -> bool {
    ||| (previous is None || !previous->0.contains(':')) && role == provider + seq!['/'] + model
    ||| previous is Some && exists|front: Seq<char>, rest: Seq<char>|
        {
            &&& #[trigger] (front + seq![':'] + rest) == previous->0
            &&& !front.contains(':')
            &&& role == provider + seq!['/'] + model + seq![':'] + rest
        }
}

/// The role for a provider and a model, where the previous default is a text
/// without a colon, a colon and a rest, is the provider, a slash, the model, a
/// colon and that rest: the whole tail is kept, however long it is and whatever
/// stands in it.
pub proof fn law_whole_tail_is_kept(
    provider: Seq<char>,
    model: Seq<char>,
    front: Seq<char>,
    rest: Seq<char>,
)
    requires
        !front.contains(':'),
    ensures
        role_text(provider, model, Some(front + seq![':'] + rest)) == provider + seq!['/'] + model
            + seq![':'] + rest,
{
    let previous = front + seq![':'] + rest;
    reveal_strlit("/");
    law_first_place_is_found(front, ':', rest);
    assert(previous.skip(front.len() as int) =~= seq![':'] + rest);
    assert("/"@ =~= seq!['/']);
    assert(role_text(provider, model, Some(previous)) =~= provider + seq!['/'] + model + seq![':']
        + rest);
}

/// The role for a provider and a model, where there is no previous default or one
/// without a colon, is the provider, a slash and the model.
pub proof fn law_nothing_is_made_up_for_a_tail(
    provider: Seq<char>,
    model: Seq<char>,
    previous: Option<Seq<char>>,
)
    requires
        previous is None || !previous->0.contains(':'),
    ensures
        role_text(provider, model, previous) == provider + seq!['/'] + model,
{
    reveal_strlit("/");
    crate::config::law_no_tail_gives_bare_role(provider, model, previous);
    assert("/"@ =~= seq!['/']);
}

/// A text that has a colon is a text without one, a colon and a rest.
proof fn lemma_split_at_colon(s: Seq<char>) -> (parts: (Seq<char>, Seq<char>))
    requires
        s.contains(':'),
    ensures
        !parts.0.contains(':'),
        s == parts.0 + seq![':'] + parts.1,
{
    let i = crate::text::first_of(s, ':') as int;
    lemma_first_where_holds(s, is_char(':'));
    if i >= s.len() {
        let j = choose|j: int| 0 <= j < s.len() && s[j] == ':';
        assert(is_char(':')(s[j]));
    }
    let front = s.take(i);
    assert(!front.contains(':')) by {
        assert forall|j: int| 0 <= j < front.len() implies front[j] != ':' by {
            assert(!is_char(':')(s[j]));
        }
    }
    assert(s =~= front + seq![':'] + s.skip(i + 1));
    (front, s.skip(i + 1))
}

/// The composed role follows the previous one.
pub proof fn law_role_follows_the_previous_one(
    provider: Seq<char>,
    model: Seq<char>,
    previous: Option<Seq<char>>,
)
    ensures
        role_follows(role_text(provider, model, previous), provider, model, previous),
{
    if previous is None || !previous->0.contains(':') {
        law_nothing_is_made_up_for_a_tail(provider, model, previous);
    } else {
        let (front, rest) = lemma_split_at_colon(previous->0);
        law_whole_tail_is_kept(provider, model, front, rest);
        assert(front + seq![':'] + rest == previous->0);
    }
}

/// Composing a role keeps the whole tail of the previous one, and makes up none.
pub proof fn law_composed_role_keeps_the_tail(
    provider_id: &str,
    model_id: &str,
    previous: Option<String>,
    r: String,
    front: Seq<char>,
    rest: Seq<char>,
)
    requires
        call_ensures(compose_role, (provider_id, model_id, previous), r),
    ensures
        previous is Some && previous->0@ == front + seq![':'] + rest && !front.contains(':')
            ==> r@ == provider_id@ + seq!['/'] + model_id@ + seq![':'] + rest,
        previous is None || !previous->0@.contains(':') ==> r@ == provider_id@ + seq!['/']
            + model_id@,
{
    if previous is Some && previous->0@ == front + seq![':'] + rest && !front.contains(':') {
        law_whole_tail_is_kept(provider_id@, model_id@, front, rest);
    }
    if previous is None {
        law_nothing_is_made_up_for_a_tail(provider_id@, model_id@, None);
    } else if !previous->0@.contains(':') {
        law_nothing_is_made_up_for_a_tail(provider_id@, model_id@, Some(previous->0@));
    }
}

/// The default role among some roles: there is none where no key is the string
/// `default`, or where the first one has null; else it is the string there.
pub open spec fn default_is(
    roles: Seq<(YamlModel, YamlModel)>,
    role: Option<Seq<char>>,
) -> bool {
    ||| role is None && reads_nowhere(roles, "default"@)
    ||| exists|k: int|
        {
            &&& #[trigger] reads_at(roles, "default"@, k)
            &&& roles[k].1 == match role {
                Some(text) => YamlModel::String(text),
                None => YamlModel::Null,
            }
        }
}

/// The roles among some entries: the mapping, tagged or not, under the first key
/// that is the string `modelRoles`, at place `i`.
pub open spec fn roles_are(
    entries: Seq<(YamlModel, YamlModel)>,
    i: int,
    roles: Seq<(YamlModel, YamlModel)>,
) -> bool {
    &&& reads_at(entries, "modelRoles"@, i)
    &&& untagged(entries[i].1) == YamlModel::Mapping(roles)
}

/// The default role of some entries is that among their roles. There is none where
/// there are no roles, or null for them.
pub proof fn law_default_role_is_found(
    entries: Seq<(YamlModel, YamlModel)>,
    path: Seq<char>,
    i: int,
    roles: Seq<(YamlModel, YamlModel)>,
    role: Option<Seq<char>>,
)
    ensures
        roles_are(entries, i, roles) && default_is(roles, role) ==> role_in(entries, path) == Ok::<
            Option<Seq<char>>,
            ErrorModel,
        >(role),
        reads_nowhere(entries, "modelRoles"@) ==> role_in(entries, path) == Ok::<
            Option<Seq<char>>,
            ErrorModel,
        >(None),
        reads_at(entries, "modelRoles"@, i) && untagged(entries[i].1) is Null ==> role_in(
            entries,
            path,
        ) == Ok::<Option<Seq<char>>, ErrorModel>(None),
{
    if reads_at(entries, "modelRoles"@, i) {
        law_yaml_lookup_finds_what_stands(entries, "modelRoles"@, i);
    }
    if reads_nowhere(entries, "modelRoles"@) {
        law_yaml_lookup_finds_nothing_else(entries, "modelRoles"@);
    }
    if roles_are(entries, i, roles) && default_is(roles, role) {
        if role is None && reads_nowhere(roles, "default"@) {
            law_yaml_lookup_finds_nothing_else(roles, "default"@);
        } else {
            let k = choose|k: int|
                {
                    &&& #[trigger] reads_at(roles, "default"@, k)
                    &&& roles[k].1 == match role {
                        Some(text) => YamlModel::String(text),
                        None => YamlModel::Null,
                    }
                };
            law_yaml_lookup_finds_what_stands(roles, "default"@, k);
        }
    }
}

/// Roles that are neither a mapping nor null are an error, and so is a default
/// that is neither a string nor null, a tagged string among these. The role then
/// is not set either.
pub proof fn law_wrong_role_is_refused(
    entries: Seq<(YamlModel, YamlModel)>,
    path: Seq<char>,
    i: int,
    roles: Seq<(YamlModel, YamlModel)>,
    k: int,
    provider: Seq<char>,
    model: Seq<char>,
)
    ensures
        reads_at(entries, "modelRoles"@, i) && !(untagged(entries[i].1) is Mapping) && !(untagged(
            entries[i].1,
        ) is Null) ==> {
            let error = ErrorModel::Config(
                "OMP config 'modelRoles' must be a mapping: "@ + path,
            );
            &&& role_in(entries, path) == Err::<Option<Seq<char>>, ErrorModel>(error)
            &&& repointed(entries, provider, model, path) == Err::<
                Seq<(YamlModel, YamlModel)>,
                ErrorModel,
            >(error)
        },
        reads_at(entries, "modelRoles"@, i) && untagged(entries[i].1) is Null ==> repointed(
            entries,
            provider,
            model,
            path,
        ) == Err::<Seq<(YamlModel, YamlModel)>, ErrorModel>(
            ErrorModel::Config("OMP config 'modelRoles' must be a mapping: "@ + path),
        ),
        roles_are(entries, i, roles) && reads_at(roles, "default"@, k) && !(roles[k].1 is String)
            && !(roles[k].1 is Null) ==> {
            let error = ErrorModel::Config(
                "OMP config 'modelRoles.default' must be a string: "@ + path,
            );
            &&& role_in(entries, path) == Err::<Option<Seq<char>>, ErrorModel>(error)
            &&& repointed(entries, provider, model, path) == Err::<
                Seq<(YamlModel, YamlModel)>,
                ErrorModel,
            >(error)
        },
{
    if reads_at(entries, "modelRoles"@, i) {
        law_yaml_lookup_finds_what_stands(entries, "modelRoles"@, i);
    }
    if roles_are(entries, i, roles) && reads_at(roles, "default"@, k) {
        law_yaml_lookup_finds_what_stands(roles, "default"@, k);
    }
}

/// Two values are tagged alike, down to what is under their tags.
pub open spec fn tagged_alike(a: YamlModel, b: YamlModel) -> bool
    decreases a,
{
    match (a, b) {
        (YamlModel::Tagged(s, x), YamlModel::Tagged(t, y)) => s == t && tagged_alike(*x, *y),
        (YamlModel::Tagged(_, _), _) => false,
        (_, YamlModel::Tagged(_, _)) => false,
        _ => true,
    }
}

/// Other entries in a value leave its tags.
proof fn lemma_tagged_alike(value: YamlModel, entries: Seq<(YamlModel, YamlModel)>)
    ensures
        tagged_alike(value, with_mapping(value, entries)),
        untagged(with_mapping(value, entries)) == YamlModel::Mapping(entries),
    decreases value,
{
    if let YamlModel::Tagged(_, inner) = value {
        lemma_tagged_alike(*inner, entries);
    }
}

/// The second roles are the first ones with this default: in its place, where a
/// key is the string `default` itself, or else behind all others.
pub open spec fn default_is_put(
    before: Seq<(YamlModel, YamlModel)>,
    after: Seq<(YamlModel, YamlModel)>,
    role: Seq<char>,
) -> bool {
    let entry = (YamlModel::String("default"@), YamlModel::String(role));
    ||| written_nowhere(before, "default"@) && after == before.push(entry)
    ||| exists|k: int| #[trigger]
        written_at(before, "default"@, k) && after == before.update(k, entry)
}

/// A default is put among roles.
proof fn lemma_default_is_put(roles: Seq<(YamlModel, YamlModel)>, role: Seq<char>)
    ensures
        default_is_put(
            roles,
            with_yaml_entry(roles, "default"@, YamlModel::String(role)),
            role,
        ),
{
    let key = "default"@;
    let i = crate::text::first_where(roles, is_key(key)) as int;
    lemma_first_where_holds(roles, is_key(key));
    assert forall|j: int| 0 <= j < i implies (#[trigger] roles[j]).0 != YamlModel::String(key) by {
        assert(!is_key(key)(roles[j]));
    }
    if i < roles.len() {
        assert(is_key(key)(roles[i]));
        assert(written_at(roles, key, i));
        law_yaml_value_is_put_in_place(roles, key, YamlModel::String(role), i);
    } else {
        law_new_yaml_value_is_put_at_the_end(roles, key, YamlModel::String(role));
    }
}

/// Pointing the default role of some entries at a provider and a model puts the
/// role that follows the previous one among the roles, which keep their key and
/// their tags, and leaves every other entry, where it stands.
pub proof fn law_role_is_put_among_the_roles(
    entries: Seq<(YamlModel, YamlModel)>,
    path: Seq<char>,
    provider: Seq<char>,
    model: Seq<char>,
    i: int,
    roles: Seq<(YamlModel, YamlModel)>,
    previous: Option<Seq<char>>,
)
    requires
        roles_are(entries, i, roles),
        default_is(roles, previous),
    ensures
        ({
            &&& repointed(entries, provider, model, path) matches Ok(after)
            &&& role_is_put(entries, after, provider, model, i, roles, previous)
        }),
{
    law_default_role_is_found(entries, path, i, roles, previous);
    law_yaml_lookup_finds_what_stands(entries, "modelRoles"@, i);
    let role = role_text(provider, model, previous);
    let new = with_yaml_entry(roles, "default"@, YamlModel::String(role));
    law_role_follows_the_previous_one(provider, model, previous);
    lemma_default_is_put(roles, role);
    lemma_tagged_alike(entries[i].1, new);
    let after = repointed(entries, provider, model, path)->Ok_0;
    assert(with_roles(entries) == entries);
    assert(untagged(after[i].1) == YamlModel::Mapping(new));
    assert(role_follows(role, provider, model, previous) && default_is_put(roles, new, role));
}

/// The second entries are the first ones, but for the roles, at place `i`, which
/// have the role that follows the previous one for their default.
pub open spec fn role_is_put(
    entries: Seq<(YamlModel, YamlModel)>,
    after: Seq<(YamlModel, YamlModel)>,
    provider: Seq<char>,
    model: Seq<char>,
    i: int,
    roles: Seq<(YamlModel, YamlModel)>,
    previous: Option<Seq<char>>,
) -> bool {
    &&& after.len() == entries.len()
    &&& after[i].0 == entries[i].0
    &&& tagged_alike(entries[i].1, after[i].1)
    &&& forall|j: int| 0 <= j < entries.len() && j != i ==> #[trigger] after[j] == entries[j]
    &&& untagged(after[i].1) is Mapping
    &&& exists|role: Seq<char>|
        {
            &&& #[trigger] role_follows(role, provider, model, previous)
            &&& default_is_put(roles, untagged(after[i].1)->Mapping_0, role)
        }
}

/// The entries behind which roles are put that have a provider, a slash and a model
/// for their default and no other role.
pub open spec fn with_first_role(
    entries: Seq<(YamlModel, YamlModel)>,
    provider: Seq<char>,
    model: Seq<char>,
) -> Seq<(YamlModel, YamlModel)> {
    entries.push(
        (
            YamlModel::String("modelRoles"@),
            YamlModel::Mapping(
                seq![
                    (
                        YamlModel::String("default"@),
                        YamlModel::String(provider + seq!['/'] + model),
                    ),
                ],
            ),
        ),
    )
}

/// Where some entries have no roles, pointing the default role at a provider and a
/// model puts roles behind them with that default alone.
pub proof fn law_first_role_is_put_behind_everything(
    entries: Seq<(YamlModel, YamlModel)>,
    path: Seq<char>,
    provider: Seq<char>,
    model: Seq<char>,
)
    requires
        reads_nowhere(entries, "modelRoles"@),
    ensures
        repointed(entries, provider, model, path) == Ok::<Seq<(YamlModel, YamlModel)>, ErrorModel>(
            with_first_role(entries, provider, model),
        ),
{
    let key = "modelRoles"@;
    let none = YamlModel::Mapping(Seq::empty());
    let role = provider + seq!['/'] + model;
    let empty = Seq::<(YamlModel, YamlModel)>::empty();
    law_yaml_lookup_finds_nothing_else(entries, key);
    law_nothing_is_made_up_for_a_tail(provider, model, None);
    assert forall|j: int| 0 <= j < entries.len() implies (#[trigger] entries[j]).0
        != YamlModel::String(key) by {
        assert(untagged(entries[j].0) != YamlModel::String(key));
    }
    law_new_yaml_value_is_put_at_the_end(entries, key, none);
    let all = with_roles(entries);
    let i = entries.len() as int;
    assert(all[i] == (YamlModel::String(key), none));
    assert forall|j: int| 0 <= j < i implies untagged((#[trigger] all[j]).0) != YamlModel::String(
        key,
    ) by {
        assert(all[j] == entries[j]);
    }
    assert(reads_at(all, key, i));
    law_yaml_lookup_finds_what_stands(all, key, i);
    law_new_yaml_value_is_put_at_the_end(empty, "default"@, YamlModel::String(role));
    let after = with_role(entries, role, path)->Ok_0;
    let new = empty.push((YamlModel::String("default"@), YamlModel::String(role)));
    assert(new =~= seq![(YamlModel::String("default"@), YamlModel::String(role))]);
    assert(with_mapping(none, new) == YamlModel::Mapping(new));
    assert(after =~= with_first_role(entries, provider, model));
}

/// The document of a config file: its mapping gives the entries, under whatever
/// tags, and null none; any other one is an error.
pub proof fn law_mapping_gives_the_entries(
    document: YamlModel,
    path: Seq<char>,
)
    ensures
        document_entries(document, path) == match untagged(document) {
            YamlModel::Mapping(entries) => Ok(entries),
            YamlModel::Null => Ok(Seq::empty()),
            _ => Err(ErrorModel::Config("OMP config root must be a mapping: "@ + path)),
        },
{
}

/// The file is missing, or its bytes, no more than one mebibyte, encode a text of
/// white space alone, and so has no entries; or they encode one in which YAML reads
/// a document with these entries.
pub open spec fn config_holds(
    file: Option<Vec<u8>>,
    entries: Seq<(YamlModel, YamlModel)>,
) -> bool {
    match file {
        None => entries.len() == 0,
        Some(bytes) => {
            &&& bytes@.len() <= 1_048_576
            &&& exists|text: Seq<char>|
                {
                    &&& #[trigger] encode_utf8(text) == bytes@
                    &&& if blank(text) {
                        entries.len() == 0
                    } else {
                        &&& yaml_read(text) matches Ok(document)
                        &&& match untagged(document) {
                            YamlModel::Mapping(read) => read == entries,
                            YamlModel::Null => entries.len() == 0,
                            _ => false,
                        }
                    }
                }
        },
    }
}

/// What a file holds is what is read in it.
proof fn lemma_config_is_read(
    file: Option<Vec<u8>>,
    entries: Seq<(YamlModel, YamlModel)>,
    path: Seq<char>,
)
    requires
        config_holds(file, entries),
    ensures
        entries_before(file_bytes(file), path) == Ok::<Seq<(YamlModel, YamlModel)>, ErrorModel>(
            entries,
        ),
{
    if entries.len() == 0 {
        assert(entries =~= Seq::empty());
    }
    if let Some(bytes) = file {
        let text = choose|text: Seq<char>|
            {
                &&& #[trigger] encode_utf8(text) == bytes@
                &&& if blank(text) {
                    entries.len() == 0
                } else {
                    &&& yaml_read(text) matches Ok(document)
                    &&& match untagged(document) {
                        YamlModel::Mapping(read) => read == entries,
                        YamlModel::Null => entries.len() == 0,
                        _ => false,
                    }
                }
            };
        encode_utf8_valid_utf8(text);
        encode_utf8_decode_utf8(text);
        law_only_white_space_trims_to_nothing(text);
    }
}

/// Why no entries are read in a config file with these bytes: they are too many,
/// they encode no text, YAML reads nothing in the text, or what it reads is neither
/// a mapping nor null.
pub open spec fn config_unreadable(bytes: Seq<u8>, path: Seq<char>, error: ErrorModel) -> bool {
    ||| bytes.len() > 1_048_576 && error == ErrorModel::InvalidInput(
        "OMP config"@ + " file exceeds the 1 MiB limit: "@ + path,
    )
    ||| bytes.len() <= 1_048_576 && !valid_utf8(bytes) && error == ErrorModel::Config(
        "OMP config"@ + " file must be UTF-8 ("@ + path + "): "@ + utf8_error(bytes),
    )
    ||| bytes.len() <= 1_048_576 && exists|text: Seq<char>|
        {
            &&& #[trigger] encode_utf8(text) == bytes
            &&& !blank(text)
            &&& match yaml_read(text) {
                Err(words) => error == ErrorModel::Config(
                    "OMP config file is not valid YAML ("@ + path + "): "@ + words,
                ),
                Ok(document) => !(untagged(document) is Mapping) && !(untagged(document) is Null)
                    && error == ErrorModel::Config(
                    "OMP config root must be a mapping: "@ + path,
                ),
            }
        }
}

/// No entries are read in an unreadable file, and why is said.
proof fn lemma_config_is_not_read(bytes: Seq<u8>, path: Seq<char>, error: ErrorModel)
    requires
        config_unreadable(bytes, path, error),
    ensures
        config_entries(bytes, path) == Err::<Seq<(YamlModel, YamlModel)>, ErrorModel>(error),
{
    if bytes.len() <= 1_048_576 && valid_utf8(bytes) {
        let text = choose|text: Seq<char>|
            {
                &&& #[trigger] encode_utf8(text) == bytes
                &&& !blank(text)
                &&& match yaml_read(text) {
                    Err(words) => error == ErrorModel::Config(
                        "OMP config file is not valid YAML ("@ + path + "): "@ + words,
                    ),
                    Ok(document) => !(untagged(document) is Mapping) && !(untagged(
                        document,
                    ) is Null) && error == ErrorModel::Config(
                        "OMP config root must be a mapping: "@ + path,
                    ),
                }
            };
        encode_utf8_valid_utf8(text);
        encode_utf8_decode_utf8(text);
        law_only_white_space_trims_to_nothing(text);
    } else if bytes.len() <= 1_048_576 {
        assert forall|text: Seq<char>| #[trigger] encode_utf8(text) != bytes by {
            encode_utf8_valid_utf8(text);
        }
    }
}

/// Taking the entries of a document gives those of its mapping, under whatever
/// tags, and none for null; any other document is an error.
pub proof fn law_entries_are_taken(
    document: Yaml,
    path: &str,
    r: Result<Vec<(Yaml, Yaml)>, AppError>,
)
    requires
        call_ensures(take_entries, (document, path), r),
    ensures
        match untagged(document@) {
            YamlModel::Mapping(entries) => r is Ok && mapping_model(r->Ok_0@) == entries,
            YamlModel::Null => r is Ok && r->Ok_0@.len() == 0,
            _ => r is Err && r->Err_0@ == ErrorModel::Config(
                "OMP config root must be a mapping: "@ + path@,
            ),
        },
{
    law_mapping_gives_the_entries(document@, path@);
    if let Ok(entries) = r {
        assert(mapping_model(entries@).len() == entries@.len());
    }
}

/// Reading a config file gives the entries that it holds, and says what is wrong
/// with one in which there are none to read.
pub proof fn law_config_file_is_read(
    bytes: Vec<u8>,
    path: &str,
    entries: Seq<(YamlModel, YamlModel)>,
    error: ErrorModel,
    r: Result<Vec<(Yaml, Yaml)>, AppError>,
)
    requires
        call_ensures(read_config_mapping, (bytes, path), r),
    ensures
        config_holds(Some(bytes), entries) ==> r is Ok && mapping_model(r->Ok_0@) == entries,
        config_unreadable(bytes@, path@, error) ==> r is Err && r->Err_0@ == error,
{
    if config_holds(Some(bytes), entries) {
        lemma_config_is_read(Some(bytes), entries, path@);
    }
    if config_unreadable(bytes@, path@, error) {
        lemma_config_is_not_read(bytes@, path@, error);
    }
}

/// Reading the default role of a file gives the string under `default` of its
/// roles, and none where there are no roles or no such role.
pub proof fn law_default_role_of_a_file_is_read(
    file: Option<Vec<u8>>,
    path: &str,
    entries: Seq<(YamlModel, YamlModel)>,
    i: int,
    roles: Seq<(YamlModel, YamlModel)>,
    role: Option<Seq<char>>,
    r: Result<Option<String>, AppError>,
)
    requires
        config_holds(file, entries),
        call_ensures(read_omp_default_role, (file, path), r),
    ensures
        roles_are(entries, i, roles) && default_is(roles, role) ==> {
            &&& r matches Ok(found)
            &&& found is Some <==> role is Some
            &&& found matches Some(text) ==> text@ == role->0
        },
        reads_nowhere(entries, "modelRoles"@) || (reads_at(entries, "modelRoles"@, i) && untagged(
            entries[i].1,
        ) is Null) ==> r == Ok::<Option<String>, AppError>(None),
{
    lemma_config_is_read(file, entries, path@);
    law_default_role_is_found(entries, path@, i, roles, role);
}

/// An unreadable config file is neither read nor written over.
pub proof fn law_unreadable_config_is_left_alone(
    bytes: Vec<u8>,
    path: &str,
    error: ErrorModel,
    provider_id: &str,
    model_id: &str,
    r: Result<Option<String>, AppError>,
    s: Result<String, AppError>,
)
    requires
        config_unreadable(bytes@, path@, error),
        call_ensures(read_omp_default_role, (Some(bytes), path), r),
        call_ensures(write_omp_default_role, (provider_id, model_id, Some(bytes), path), s),
    ensures
        r matches Err(e) && e@ == error,
        s matches Err(e) && e@ == error,
{
    lemma_config_is_not_read(bytes@, path@, error);
}

/// Finding the default role among entries, and pointing it at a provider and a
/// model: the role is put where it was, following the previous one, and nothing
/// else changes.
pub proof fn law_pointed_role_keeps_the_rest(
    mapping: Vec<(Yaml, Yaml)>,
    provider_id: &str,
    model_id: &str,
    path: &str,
    i: int,
    roles: Seq<(YamlModel, YamlModel)>,
    previous: Option<Seq<char>>,
    r: Result<Option<String>, AppError>,
    s: Result<Vec<(Yaml, Yaml)>, AppError>,
)
    requires
        call_ensures(find_role, (&mapping, path), r),
        call_ensures(point_default_role, (mapping, provider_id, model_id, path), s),
    ensures
        ({
            let entries = mapping_model(mapping@);
            &&& roles_are(entries, i, roles) && default_is(roles, previous) ==> {
                &&& r matches Ok(found)
                &&& found is Some <==> previous is Some
                &&& found matches Some(text) ==> text@ == previous->0
                &&& s matches Ok(after)
                &&& role_is_put(
                    entries,
                    mapping_model(after@),
                    provider_id@,
                    model_id@,
                    i,
                    roles,
                    previous,
                )
            }
            &&& reads_nowhere(entries, "modelRoles"@) ==> {
                &&& r == Ok::<Option<String>, AppError>(None)
                &&& s matches Ok(after)
                &&& mapping_model(after@) == with_first_role(entries, provider_id@, model_id@)
            }
        }),
{
    let entries = mapping_model(mapping@);
    law_default_role_is_found(entries, path@, i, roles, previous);
    if roles_are(entries, i, roles) && default_is(roles, previous) {
        law_role_is_put_among_the_roles(
            entries,
            path@,
            provider_id@,
            model_id@,
            i,
            roles,
            previous,
        );
    }
    if reads_nowhere(entries, "modelRoles"@) {
        law_first_role_is_put_behind_everything(entries, path@, provider_id@, model_id@);
    }
}

/// What is wrong with the roles of some entries: they are neither a mapping nor
/// null, or their default is neither a string nor null.
pub open spec fn roles_are_wrong(
    entries: Seq<(YamlModel, YamlModel)>,
    path: Seq<char>,
    error: ErrorModel,
) -> bool {
    exists|i: int|
        {
            &&& #[trigger] reads_at(entries, "modelRoles"@, i)
            &&& match untagged(entries[i].1) {
                YamlModel::Null => false,
                YamlModel::Mapping(roles) => error == ErrorModel::Config(
                    "OMP config 'modelRoles.default' must be a string: "@ + path,
                ) && exists|k: int|
                    {
                        &&& #[trigger] reads_at(roles, "default"@, k)
                        &&& !(roles[k].1 is String)
                        &&& !(roles[k].1 is Null)
                    },
                _ => error == ErrorModel::Config(
                    "OMP config 'modelRoles' must be a mapping: "@ + path,
                ),
            }
        }
}

/// Where the roles of a file are wrong its default role is neither read nor
/// written, and what is wrong is told.
pub proof fn law_wrong_roles_are_left_alone(
    file: Option<Vec<u8>>,
    path: &str,
    provider_id: &str,
    model_id: &str,
    entries: Seq<(YamlModel, YamlModel)>,
    error: ErrorModel,
    r: Result<Option<String>, AppError>,
    s: Result<String, AppError>,
)
    requires
        config_holds(file, entries),
        roles_are_wrong(entries, path@, error),
        call_ensures(read_omp_default_role, (file, path), r),
        call_ensures(write_omp_default_role, (provider_id, model_id, file, path), s),
    ensures
        r matches Err(e) && e@ == error,
        s matches Err(e) && e@ == error,
{
    lemma_config_is_read(file, entries, path@);
    lemma_roles_are_wrong(entries, path@, error, provider_id@, model_id@);
}

/// What wrong roles come to.
proof fn lemma_roles_are_wrong(
    entries: Seq<(YamlModel, YamlModel)>,
    path: Seq<char>,
    error: ErrorModel,
    provider: Seq<char>,
    model: Seq<char>,
)
    requires
        roles_are_wrong(entries, path, error),
    ensures
        role_in(entries, path) == Err::<Option<Seq<char>>, ErrorModel>(error),
        repointed(entries, provider, model, path) == Err::<
            Seq<(YamlModel, YamlModel)>,
            ErrorModel,
        >(error),
{
    let i = choose|i: int|
        {
            &&& #[trigger] reads_at(entries, "modelRoles"@, i)
            &&& match untagged(entries[i].1) {
                YamlModel::Null => false,
                YamlModel::Mapping(roles) => error == ErrorModel::Config(
                    "OMP config 'modelRoles.default' must be a string: "@ + path,
                ) && exists|k: int|
                    {
                        &&& #[trigger] reads_at(roles, "default"@, k)
                        &&& !(roles[k].1 is String)
                        &&& !(roles[k].1 is Null)
                    },
                _ => error == ErrorModel::Config(
                    "OMP config 'modelRoles' must be a mapping: "@ + path,
                ),
            }
        };
    if let YamlModel::Mapping(roles) = untagged(entries[i].1) {
        let k = choose|k: int|
            {
                &&& #[trigger] reads_at(roles, "default"@, k)
                &&& !(roles[k].1 is String)
                &&& !(roles[k].1 is Null)
            };
        law_wrong_role_is_refused(entries, path, i, roles, k, provider, model);
    } else {
        law_wrong_role_is_refused(entries, path, i, entries, 0, provider, model);
    }
}

/// Null for the roles of a file reads as no default role, but no role can be put
/// into it.
pub proof fn law_null_is_no_place_for_a_role(
    file: Option<Vec<u8>>,
    path: &str,
    provider_id: &str,
    model_id: &str,
    entries: Seq<(YamlModel, YamlModel)>,
    i: int,
    r: Result<Option<String>, AppError>,
    s: Result<String, AppError>,
)
    requires
        config_holds(file, entries),
        reads_at(entries, "modelRoles"@, i),
        untagged(entries[i].1) is Null,
        call_ensures(read_omp_default_role, (file, path), r),
        call_ensures(write_omp_default_role, (provider_id, model_id, file, path), s),
    ensures
        r == Ok::<Option<String>, AppError>(None),
        s is Err && s->Err_0@ == ErrorModel::Config(
            "OMP config 'modelRoles' must be a mapping: "@ + path@,
        ),
{
    lemma_config_is_read(file, entries, path@);
    law_default_role_is_found(entries, path@, i, entries, None);
    law_wrong_role_is_refused(entries, path@, i, entries, 0, provider_id@, model_id@);
}

/// The text for some entries is what YAML writes for them. There is none where
/// YAML writes none, or where they are too large.
pub proof fn law_entries_are_written_as_they_are(
    mapping: Vec<(Yaml, Yaml)>,
    path: &str,
    r: Result<String, AppError>,
)
    requires
        call_ensures(write_config, (mapping, path), r),
    ensures
        ({
            let document = YamlModel::Mapping(mapping_model(mapping@));
            let before = "failed to serialize OMP config ("@ + path@ + "): "@;
            if yaml_size(document) > 0x7fff_ff00 {
                &&& r matches Err(error)
                &&& error@ == ErrorModel::Config(before + "the document is too large"@)
            } else {
                match yaml_write(document) {
                    Ok(text) => {
                        &&& r matches Ok(written)
                        &&& written@ == text
                    },
                    Err(words) => {
                        &&& r matches Err(error)
                        &&& error@ == ErrorModel::Config(before + words)
                    },
                }
            }
        }),
{
}

/// Writing the default role of a file for a provider and a model: what is written
/// is what YAML writes for its entries, with the role that follows the previous
/// one among its roles and with nothing else changed. Where it has no roles, or
/// there is no file, roles with the provider, a slash and the model are put behind
/// what there is.
pub proof fn law_default_role_of_a_file_is_written(
    file: Option<Vec<u8>>,
    path: &str,
    provider_id: &str,
    model_id: &str,
    entries: Seq<(YamlModel, YamlModel)>,
    i: int,
    roles: Seq<(YamlModel, YamlModel)>,
    previous: Option<Seq<char>>,
    r: Result<String, AppError>,
)
    requires
        config_holds(file, entries),
        call_ensures(write_omp_default_role, (provider_id, model_id, file, path), r),
        r is Ok,
    ensures
        roles_are(entries, i, roles) && default_is(roles, previous) ==> exists|
            after: Seq<(YamlModel, YamlModel)>,
        |
            {
                &&& #[trigger] role_is_put(
                    entries,
                    after,
                    provider_id@,
                    model_id@,
                    i,
                    roles,
                    previous,
                )
                &&& yaml_write(YamlModel::Mapping(after)) == Ok::<Seq<char>, Seq<char>>(r->Ok_0@)
            },
        reads_nowhere(entries, "modelRoles"@) ==> yaml_write(
            YamlModel::Mapping(with_first_role(entries, provider_id@, model_id@)),
        ) == Ok::<Seq<char>, Seq<char>>(r->Ok_0@),
{
    lemma_config_is_read(file, entries, path@);
    let after = entries_after(file_bytes(file), path@, provider_id@, model_id@)->Ok_0;
    if roles_are(entries, i, roles) && default_is(roles, previous) {
        law_role_is_put_among_the_roles(
            entries,
            path@,
            provider_id@,
            model_id@,
            i,
            roles,
            previous,
        );
        assert(role_is_put(entries, after, provider_id@, model_id@, i, roles, previous));
    }
    if reads_nowhere(entries, "modelRoles"@) {
        law_first_role_is_put_behind_everything(entries, path@, provider_id@, model_id@);
    }
}

/// Writing the default role of a file succeeds wherever its roles are a mapping
/// with a string or null for the default, or are not there, as long as YAML writes
/// the entries and these are not too large.
pub proof fn law_default_role_can_be_written(
    file: Option<Vec<u8>>,
    path: &str,
    provider_id: &str,
    model_id: &str,
    entries: Seq<(YamlModel, YamlModel)>,
    i: int,
    roles: Seq<(YamlModel, YamlModel)>,
    previous: Option<Seq<char>>,
    r: Result<String, AppError>,
)
    requires
        config_holds(file, entries),
        call_ensures(write_omp_default_role, (provider_id, model_id, file, path), r),
        reads_nowhere(entries, "modelRoles"@) || (roles_are(entries, i, roles) && default_is(
            roles,
            previous,
        )),
    ensures
        ({
            &&& entries_after(file_bytes(file), path@, provider_id@, model_id@) matches Ok(after)
            &&& yaml_size(YamlModel::Mapping(after)) <= 0x7fff_ff00 && yaml_write(
                YamlModel::Mapping(after),
            ) is Ok ==> r is Ok
        }),
{
    lemma_config_is_read(file, entries, path@);
    if reads_nowhere(entries, "modelRoles"@) {
        law_first_role_is_put_behind_everything(entries, path@, provider_id@, model_id@);
    } else {
        law_role_is_put_among_the_roles(
            entries,
            path@,
            provider_id@,
            model_id@,
            i,
            roles,
            previous,
        );
    }
}

/// What a value holds is what it was made of.
pub proof fn law_value_holds_what_it_was_made_of(
    b: bool,
    s: String,
    items: Vec<Yaml>,
    entries: Vec<(Yaml, Yaml)>,
    i: int,
)
    ensures
        Yaml::Null@ is Null,
        Yaml::Bool(b)@ == YamlModel::Bool(b),
        Yaml::String(s)@ == YamlModel::String(s@),
        ({
            &&& Yaml::Sequence(items)@ matches YamlModel::Sequence(held)
            &&& held.len() == items@.len()
            &&& 0 <= i < held.len() ==> held[i] == items@[i]@
        }),
        ({
            &&& Yaml::Mapping(entries)@ matches YamlModel::Mapping(held)
            &&& held.len() == entries@.len()
            &&& 0 <= i < held.len() ==> held[i] == (entries@[i].0@, entries@[i].1@)
        }),
{
}

} // verus!
