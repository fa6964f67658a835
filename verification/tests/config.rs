use omp_config::config::{
    compose_role, find_role, point_default_role, read_config_mapping, read_omp_default_role,
    write_omp_default_role,
};
use omp_config::error::AppError;
use omp_config::yaml::{yaml_mapping_lookup, yaml_mapping_lookup_mut, Yaml};
use omp_config::yaml_text::{read_yaml, write_yaml};

const PATH: &str = "/agent/config.yml";

fn file(text: &str) -> Option<Vec<u8>> {
    Some(text.as_bytes().to_vec())
}

fn role(text: &str) -> Result<Option<String>, AppError> {
    read_omp_default_role(file(text), PATH)
}

#[test]
fn missing_config_means_no_default_role() {
    assert_eq!(read_omp_default_role(None, PATH).expect("read default role"), None);
}

#[test]
fn default_role_round_trip_preserves_other_keys_and_thinking_tail() {
    let before = "theme: dark\nmodelRoles:\n  default: old-prov/old-model:xhigh\n";

    let text = write_omp_default_role("new-prov", "new-model", file(before), PATH)
        .expect("write default role");
    assert_eq!(
        role(&text).expect("read default role"),
        Some("new-prov/new-model:xhigh".to_string())
    );
    assert!(text.contains("theme: dark"), "other keys survive: {text}");

    let text = write_omp_default_role("plain-prov", "plain-model", file(&text), PATH)
        .expect("rewrite default role");
    assert_eq!(
        role(&text).expect("read default role"),
        Some("plain-prov/plain-model:xhigh".to_string())
    );
}

#[test]
fn default_role_without_tail_writes_bare_role() {
    let text = write_omp_default_role("prov", "model", None, PATH).expect("write default role");
    assert_eq!(
        role(&text).expect("read default role"),
        Some("prov/model".to_string())
    );
    assert_eq!(text, "modelRoles:\n  default: prov/model\n");
}

#[test]
fn invalid_config_yaml_is_an_error_not_a_quarantine() {
    let error = role("{not-yaml: [unclosed").expect_err("invalid YAML must fail");
    assert!(matches!(error, AppError::Config(_)));
    assert!(error
        .message()
        .starts_with("OMP config file is not valid YAML (/agent/config.yml): "));
    assert!(!error.message().ends_with("): "));
    let error = write_omp_default_role("p", "m", file("{not-yaml: [unclosed"), PATH)
        .expect_err("nothing is written over an invalid file");
    assert!(matches!(error, AppError::Config(_)));
}

#[test]
fn blank_and_null_files_hold_no_role() {
    for text in ["", " \n\t\u{3000}", "null", "~\n", "!t null", "# only a comment\n", "{}"] {
        assert_eq!(role(text), Ok(None), "{text:?}");
    }
    for text in [
        "modelRoles:\n",
        "modelRoles: !t null",
        "modelRoles: {}",
        "modelRoles: {default: }",
        "modelRoles: {other: x}",
    ] {
        assert_eq!(role(text), Ok(None), "{text:?}");
    }
}

#[test]
fn every_level_must_have_its_shape() {
    let error = |text: &str| role(text).expect_err("an error").message().to_string();
    assert_eq!(error("- a\n"), "OMP config root must be a mapping: /agent/config.yml");
    assert_eq!(
        error("modelRoles: [a]"),
        "OMP config 'modelRoles' must be a mapping: /agent/config.yml"
    );
    for text in ["modelRoles: {default: 1}", "modelRoles: {default: !t x}"] {
        assert_eq!(
            error(text),
            "OMP config 'modelRoles.default' must be a string: /agent/config.yml"
        );
    }
    assert_eq!(
        read_omp_default_role(Some(vec![0xff]), PATH),
        Err(AppError::Config(
            "OMP config file must be UTF-8 (/agent/config.yml): \
             invalid utf-8 sequence of 1 bytes from index 0"
                .to_string()
        ))
    );
    assert_eq!(
        read_omp_default_role(Some(vec![b' '; 1024 * 1024 + 1]), PATH),
        Err(AppError::InvalidInput(
            "OMP config file exceeds the 1 MiB limit: /agent/config.yml".to_string()
        ))
    );
}

#[test]
fn null_roles_are_no_place_for_a_role() {
    assert_eq!(
        write_omp_default_role("p", "m", file("modelRoles:\n"), PATH),
        Err(AppError::Config(
            "OMP config 'modelRoles' must be a mapping: /agent/config.yml".to_string()
        ))
    );
}

#[test]
fn tags_are_looked_through_but_not_on_the_role() {
    assert_eq!(
        role("!root\n!k modelRoles: !m\n  !d default: a/b\n"),
        Ok(Some("a/b".to_string()))
    );
}

#[test]
fn a_tagged_default_key_hides_the_role_that_is_written() {
    let text = write_omp_default_role("p", "m", file("modelRoles: {x: 1, !d default: a/b}"), PATH)
        .expect("write default role");
    assert_eq!(role(&text), Ok(Some("a/b".to_string())));
}

#[test]
fn entries_that_cannot_be_written_are_an_error() {
    let error = write_omp_default_role("p", "m", file("a: {!t k: 1}\n"), PATH)
        .expect_err("the only key of a mapping is tagged");
    assert!(matches!(error, AppError::Config(_)));
    assert!(error
        .message()
        .starts_with("failed to serialize OMP config (/agent/config.yml): "));
    assert!(!error.message().ends_with("): "));
}

#[test]
fn the_size_of_a_value_counts_nodes_texts_and_tags() {
    let read = |text: &str| read_yaml(text).expect("YAML");
    for (text, size) in [
        ("~", 32),
        ("true", 32),
        ("12345", 32),
        ("a b~", 36),
        ("aé", 39),
        (r#""'\"\\""#, 50),
        ("''", 32),
        ("[]", 32),
        ("[a, [bc]]", 131),
        ("{a: 1, bc: [~]}", 195),
        ("!tag x", 77),
        ("!%C3%A9 {!u k: v}", 183),
    ] {
        let value = read(text);
        assert_eq!(value.spend_size(size), Some(0), "{text}");
        assert_eq!(value.spend_size(size + 5), Some(5), "{text}");
        assert_eq!(value.spend_size(size - 1), None, "{text}");
    }
}

#[test]
fn a_long_role_is_written() {
    let provider = "p".repeat(3_000_000);
    let text = write_omp_default_role(&provider, "m", None, PATH).expect("write default role");
    assert_eq!(text.len(), 3_000_000 + "modelRoles:\n  default: /m\n".len());
    assert!(matches!(role(&text), Err(AppError::InvalidInput(_))));
}

#[test]
fn a_text_that_cannot_be_read_is_not_read_as_another() {
    let text = write_omp_default_role("p", "m", file("a: !x%2Cy 1\n"), PATH).expect("write");
    assert!(matches!(role(&text), Err(AppError::Config(_))));
    assert!(write_omp_default_role("q", "n", file(&text), PATH).is_err());
}

#[test]
fn white_space_alone_is_a_value_but_no_mapping() {
    for space in ["\u{a0}", "\u{3000}\u{2000}", "\u{1680}"] {
        let text = write_yaml(Yaml::String(space.to_string())).expect("write");
        assert_eq!(text.trim(), "");
        assert!(matches!(read_yaml(&text), Ok(Yaml::String(read)) if read == space));
        let text = write_omp_default_role(space, space, None, PATH).expect("write");
        assert_eq!(role(&text), Ok(Some(format!("{space}/{space}"))));
    }
}

#[test]
fn the_last_role_counts() {
    for before in [
        "theme: dark\nmodelRoles:\n  default: old/one:xhigh\n  smol: a/b\n",
        "modelRoles: {x: 1, !d default: a/b:t}\n",
        "{}",
    ] {
        let write = |provider: &str, model: &str, text: &str| {
            write_omp_default_role(provider, model, file(text), PATH).expect("write")
        };
        let twice = write("p2", "m2:x", &write("p1", "m1", before));
        assert_eq!(twice, write("p2", "m2:x", before));
        let once = write("p1", "m1", before);
        assert_eq!(write("p1", "m1", &once), once);
    }
}

#[test]
fn a_tag_on_a_tag_is_not_written() {
    let nested = Yaml::Tagged(
        serde_yaml::value::Tag::new("a"),
        Box::new(Yaml::Tagged(serde_yaml::value::Tag::new("b"), Box::new(Yaml::Null))),
    );
    assert!(write_yaml(nested).is_err());
}

#[test]
fn the_tail_begins_at_the_first_colon() {
    let compose = |previous: &str| compose_role("p", "m", Some(previous.to_string()));
    assert_eq!(compose_role("p", "m", None), "p/m");
    assert_eq!(compose("a/b"), "p/m");
    assert_eq!(compose("a/b:x:y"), "p/m:x:y");
    assert_eq!(compose(":"), "p/m:");
    assert_eq!(compose("é:ü"), "p/m:ü");
    assert_eq!(compose_role("p", "m:n", Some("a/b:x".to_string())), "p/m:n:x");
}

#[test]
fn everything_but_the_default_role_is_preserved_in_its_place() {
    let before = "1: one\n'null': two\ntrue: [a, 'b c', '']\nmodelRoles:\n  smol: x/y\n  \
                  default: o/p\n  plan: z/w\nnested: {a: {b: -1.5, c: 0x1f}}\nempty: {}\n";
    let text = write_omp_default_role("p", "m", file(before), PATH).expect("write default role");
    let expected = before.replace("o/p", "p/m");
    let read = |text: &str| -> serde_yaml::Value { serde_yaml::from_str(text).expect("YAML") };
    assert_eq!(read(&text), read(&expected));
    let keys = |text: &str| -> Vec<serde_yaml::Value> {
        read(text).as_mapping().expect("a mapping").keys().cloned().collect()
    };
    assert_eq!(keys(&text), keys(&expected));
}

#[test]
fn roles_with_odd_characters_are_read_back() {
    for id in ["a b", " a", "a#b", "- a", "'", "\"\\", "\t", "\u{7f}", "\u{feff}", "é😀", "&x", "*"] {
        let text = write_omp_default_role(id, id, None, PATH).expect("write default role");
        assert_eq!(role(&text), Ok(Some(format!("{id}/{id}"))), "{id:?}");
    }
}

#[test]
fn entries_of_every_sort_are_read_back() {
    let long = "k".repeat(200);
    let odd = [
        format!("{long}: {{a: 1, b: [1, {{c: 2}}]}}\n"),
        format!("{long}: [a, [b, c], {{d: e, f: []}}]\n"),
        "~: 1\nfalse: 2\n1.5: 3\n.nan: 4\n-7: 5\n'': 6\n'~': 7\n'7': 8\n".to_string(),
        "a: [.inf, -.inf, 1e16, 18446744073709551615, -9223372036854775808, -0.0]\n".to_string(),
        "a: ['yes', 'off', '0x10', '1_000', '007', '<<', '=', '? a', ': b', '%', '@']\n".to_string(),
        "'key: with colon': ' leading'\n'#x': 'trailing '\n'- y': \"quote'quote\"\n".to_string(),
        "prompt: |\n  first\n\n    second\nkept: |+\n  a\n\n\"k\\nl\": !t {x: !u [1]}\n".to_string(),
    ];
    for before in odd {
        let text = write_omp_default_role("p", "m", file(&before), PATH).expect("write");
        let read = |text: &str| -> serde_yaml::Value { serde_yaml::from_str(text).expect("YAML") };
        let expected = format!("{before}modelRoles:\n  default: p/m\n");
        assert_eq!(read(&text), read(&expected), "{text}");
    }
}

#[test]
fn entries_are_read_as_deep_as_they_are_written() {
    let nested = |depth: usize| format!("a: {}{}\n", "[".repeat(depth), "]".repeat(depth));
    let text = write_omp_default_role("p", "m", file(&nested(127)), PATH).expect("write");
    assert_eq!(role(&text), Ok(Some("p/m".to_string())));
    assert!(role(&nested(128)).is_err());
}

#[test]
fn a_mapping_is_pointed_without_any_text() {
    let mapping = vec![
        (Yaml::Bool(true), Yaml::Null),
        (
            Yaml::String("modelRoles".to_string()),
            Yaml::Mapping(vec![(
                Yaml::String("default".to_string()),
                Yaml::String("a/b:t".to_string()),
            )]),
        ),
    ];
    let after = point_default_role(mapping, "p", "m", PATH).expect("point");
    assert_eq!(find_role(&after, PATH), Ok(Some("p/m:t".to_string())));
    assert_eq!(after.len(), 2);
    assert!(matches!(after[0], (Yaml::Bool(true), Yaml::Null)));
}

#[test]
fn a_value_is_found_and_changed_in_place() {
    let mut mapping = read_config_mapping(b"a: 1\n!t b: 2\nb: 3\n".to_vec(), PATH).expect("read");
    assert!(yaml_mapping_lookup(&mapping, "c").is_none());
    assert!(yaml_mapping_lookup_mut(&mut mapping, "c").is_none());
    *yaml_mapping_lookup_mut(&mut mapping, "b").expect("the tagged key") = Yaml::Bool(true);
    assert!(matches!(mapping[1].1, Yaml::Bool(true)));
    assert!(matches!(mapping[2].1, Yaml::Number(_)));
    assert!(matches!(yaml_mapping_lookup(&mapping, "b"), Some(Yaml::Bool(true))));
}
