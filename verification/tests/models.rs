use omp_config::error::AppError;
use omp_config::files::{check_file_length, read_file_limited, MAX_OMP_FILE_BYTES};
use omp_config::json::Json;
use omp_config::json_text::{from_value, into_value};
use omp_config::models::{
    collect_providers, confirm_models_write, ensure_models_revision, insert_into_document,
    insert_omp_provider, omp_provider_exists, read_models_document_with_revision,
    read_omp_native_provider, read_omp_native_providers, remove_from_document,
    remove_omp_provider, remove_omp_provider_if_matches, replace_in_document,
    replace_omp_provider, replace_omp_provider_if_present, restore_in_document,
    restore_omp_provider_if_missing, write_models_document, ModelsWrite,
};
use omp_config::revision::{revision, to_hex};

const PATH: &str = "/agent/models.json";

fn json(text: &str) -> Json {
    from_value(serde_json::from_str(text).expect("JSON"))
}

fn text(value: &Json) -> String {
    into_value(value.clone()).to_string()
}

fn file(text: &str) -> Option<Vec<u8>> {
    Some(text.as_bytes().to_vec())
}

fn provider() -> Json {
    json(
        r#"{
            "name": "Example",
            "baseUrl": "https://api.example.com/v1",
            "api": "openai-completions",
            "apiKey": "secret",
            "models": [{"id": "example-model"}]
        }"#,
    )
}

fn renamed(name: &str) -> Json {
    let mut value = into_value(provider());
    value["name"] = serde_json::Value::String(name.to_string());
    from_value(value)
}

/// Writes over the file as it stands.
fn store(write: ModelsWrite, current: Option<Vec<u8>>) -> Option<Vec<u8>> {
    Some(confirm_models_write(write, current, PATH).expect("the file is unchanged"))
}

#[test]
fn duplicate_provider_key_is_validation_not_a_write_conflict() {
    let change = insert_omp_provider("duplicate", &provider(), None, PATH).expect("insert provider");
    assert!(change.outcome);
    let stored = store(change.write.expect("a write"), None);

    let error = insert_omp_provider("duplicate", &renamed("Other"), stored, PATH)
        .expect_err("duplicate provider key must be rejected");
    assert!(matches!(error, AppError::InvalidInput(_)));
    assert_eq!(
        error.message(),
        "OMP provider key 'duplicate' already exists in models.json"
    );
}

#[test]
fn stale_models_revision_does_not_overwrite_an_external_edit() {
    let initial = r#"{"providers":{"external":{"models":[]}}}"#;
    let (_, stale_revision) =
        read_models_document_with_revision(file(initial), PATH).expect("read models revision");

    let external = r#"{"providers":{"external":{"models":[]},"omp-added":{"models":[]}}}"#;
    let mut replacement = json(r#"{"providers": {"cc-switch": {}}}"#);
    replacement = replace_in_document(replacement, "cc-switch", &json("{}"), &provider(), PATH)
        .expect("replace")
        .document
        .expect("another document");
    let write = write_models_document(replacement, stale_revision).expect("serialize");
    let error = confirm_models_write(write, file(external), PATH).expect_err("stale write must fail");
    assert!(matches!(error, AppError::Conflict(_)));
    assert_eq!(
        error.message(),
        "OMP models.json changed outside CC Switch: /agent/models.json"
    );
}

#[test]
fn a_file_that_comes_or_goes_makes_a_write_stale() {
    let write = |current: Option<Vec<u8>>| {
        let (document, revision) = read_models_document_with_revision(current, PATH).expect("read");
        write_models_document(document, revision).expect("serialize")
    };
    assert!(confirm_models_write(write(None), file("{}"), PATH).is_err());
    assert!(confirm_models_write(write(file("{}")), None, PATH).is_err());
    assert_eq!(confirm_models_write(write(None), None, PATH), Ok(b"{}\n".to_vec()));
    assert_eq!(
        confirm_models_write(write(file("{a:[]}")), file("{a:[]}"), PATH),
        Ok(b"{\n  \"a\": []\n}\n".to_vec())
    );
    assert_eq!(ensure_models_revision(None, PATH, &"missing".to_string()), Ok(()));
    assert_eq!(
        ensure_models_revision(
            Some(vec![b' '; MAX_OMP_FILE_BYTES as usize + 1]),
            PATH,
            &"missing".to_string()
        ),
        Err(AppError::InvalidInput(
            "OMP models file exceeds the 1 MiB limit: /agent/models.json".to_string()
        ))
    );
}

#[test]
fn a_revision_is_the_sha256_digest_in_lower_case() {
    assert_eq!(
        revision(b"abc"),
        "ba7816bf8f01cfea414140de5dae2223b00361a396177a9cb410ff61f20015ad"
    );
    assert_eq!(to_hex(&[0x00, 0x0f, 0xa5, 0xff]), "000fa5ff");
    assert_ne!(to_hex(&[0x01]), to_hex(&[0x10]));
    let (_, found) = read_models_document_with_revision(file("{}"), PATH).expect("read");
    assert_eq!(found, revision(b"{}"));
    let (document, missing) = read_models_document_with_revision(None, PATH).expect("read");
    assert_eq!(text(&document), "{}");
    assert_eq!(missing, "missing");
}

#[test]
fn an_inserted_node_is_read_back_beside_the_others() {
    let before = r#"// comments are read
        { schema: 2, providers: { 'first': {n: 0x10}, second: {} }, trailing: [1,], }"#;
    let change =
        insert_omp_provider("third", &provider(), file(before), PATH).expect("insert provider");
    assert!(change.outcome);
    let write = change.write.expect("a write");
    assert_eq!(write.expected_revision, revision(before.as_bytes()));
    let stored = store(write, file(before));
    let keys: Vec<String> = read_omp_native_providers(stored.clone(), PATH)
        .expect("read providers")
        .keys()
        .cloned()
        .collect();
    assert_eq!(keys, ["first", "second", "third"]);
    let third = read_omp_native_provider("third", stored.clone(), PATH).expect("read provider");
    assert!(third.expect("the node").same(&provider()));
    let first = read_omp_native_provider("first", stored.clone(), PATH).expect("read provider");
    assert_eq!(text(&first.expect("the node")), r#"{"n":16}"#);
    let (document, _) = read_models_document_with_revision(stored.clone(), PATH).expect("read");
    let value = into_value(document);
    assert_eq!(value["schema"], 2);
    assert_eq!(value["trailing"][0], 1);

    let again = insert_omp_provider("third", &provider(), stored, PATH).expect("insert again");
    assert!(!again.outcome);
    assert!(again.write.is_none());
}

#[test]
fn a_node_is_looked_at_before_the_file_is() {
    let broken = file("not json");
    let error = insert_omp_provider(" ", &provider(), broken.clone(), PATH).expect_err("no key");
    assert_eq!(error.message(), "OMP provider key cannot be empty");
    let error = replace_omp_provider("k", &json("1"), &json("1"), broken.clone(), PATH)
        .expect_err("no object");
    assert_eq!(error.message(), "OMP provider configuration must be an object");
    let error = replace_omp_provider_if_present("k", &json("1"), broken.clone(), PATH)
        .expect_err("no object");
    assert_eq!(error.message(), "OMP provider configuration must be an object");
    let error = insert_omp_provider("k", &provider(), broken, PATH).expect_err("no JSON");
    assert!(matches!(error, AppError::Config(_)));
    assert!(error
        .message()
        .starts_with("OMP models file is not valid JSON/JSONC (/agent/models.json): "));
    assert!(!error.message().ends_with("): "));
}

#[test]
fn a_file_must_be_utf8_and_an_object_of_objects() {
    let error = omp_provider_exists("k", Some(vec![b'{', 0xff]), PATH).expect_err("no UTF-8");
    assert_eq!(
        error,
        AppError::Config(
            "OMP models file must be UTF-8 (/agent/models.json): \
             invalid utf-8 sequence of 1 bytes from index 1"
                .to_string()
        )
    );
    assert_eq!(
        omp_provider_exists("k", file("[]"), PATH),
        Err(AppError::Config(
            "OMP models root must be an object: /agent/models.json".to_string()
        ))
    );
    let error = insert_omp_provider("k", &provider(), file("{providers: null}"), PATH)
        .expect_err("no object");
    assert_eq!(
        error,
        AppError::Config(
            "OMP models 'providers' must be an object: /agent/models.json".to_string()
        )
    );
    assert_eq!(omp_provider_exists("k", file("{}"), PATH), Ok(false));
    assert_eq!(omp_provider_exists("k", file("{providers:{k:1}}"), PATH), Ok(true));
}

#[test]
fn replacing_is_compare_and_swap() {
    let before = r#"{"providers":{"a":{"x":1,"y":2},"b":{}}}"#;
    let expected = json(r#"{"y":2,"x":1}"#);
    let change = replace_omp_provider("a", &expected, &provider(), file(before), PATH)
        .expect("the expected node is there");
    let stored = store(change.write.expect("a write"), file(before));
    let keys: Vec<String> = read_omp_native_providers(stored.clone(), PATH)
        .expect("read")
        .keys()
        .cloned()
        .collect();
    assert_eq!(keys, ["a", "b"]);
    assert!(read_omp_native_provider("a", stored, PATH).expect("read").expect("a").same(&provider()));

    let change = replace_omp_provider("a", &expected, &expected, file(before), PATH).expect("same");
    assert!(change.write.is_none());
    let error = replace_omp_provider("a", &json(r#"{"x":1}"#), &provider(), file(before), PATH)
        .expect_err("another node");
    assert_eq!(
        error,
        AppError::Conflict("OMP provider 'a' changed outside CC Switch".to_string())
    );
    let error = replace_omp_provider("c", &expected, &provider(), file(before), PATH)
        .expect_err("no node");
    assert_eq!(
        error,
        AppError::Conflict("OMP provider 'c' is no longer present in models.json".to_string())
    );
}

#[test]
fn replacing_what_is_present_answers_with_the_node_before() {
    let before = r#"{"providers":{"a":{"x":1.0}}}"#;
    let change = replace_omp_provider_if_present("a", &provider(), file(before), PATH).expect("ok");
    assert_eq!(text(&change.outcome.expect("a node")), r#"{"x":1.0}"#);
    assert!(change.write.is_some());
    let same = json(r#"{"x":1.0}"#);
    let change = replace_omp_provider_if_present("a", &same, file(before), PATH).expect("ok");
    assert!(change.outcome.is_some() && change.write.is_none());
    let other = json(r#"{"x":1}"#);
    let change = replace_omp_provider_if_present("a", &other, file(before), PATH).expect("ok");
    assert!(change.write.is_some(), "an integer is not a double");
    let change = replace_omp_provider_if_present("b", &same, file(before), PATH).expect("ok");
    assert!(change.outcome.is_none() && change.write.is_none());
}

#[test]
fn removal_undoes_insertion_and_restoring_undoes_removal() {
    let before = r#"{"providers":{"a":{"n":1},"b":{"n":2},"c":{"n":3}}}"#;
    let inserted = insert_into_document(json(before), "d", &provider(), PATH)
        .expect("insert")
        .document
        .expect("another document");
    let removed = remove_from_document(inserted, "d", None, PATH).expect("remove");
    assert!(removed.outcome.expect("the node").same(&provider()));
    assert_eq!(text(&removed.document.expect("another document")), before);

    let removed = remove_from_document(json(before), "a", None, PATH).expect("remove");
    let node = removed.outcome.expect("the node");
    let left = removed.document.expect("another document");
    assert_eq!(text(&left), r#"{"providers":{"c":{"n":3},"b":{"n":2}}}"#);
    let restored = restore_in_document(left, "a", &node, PATH)
        .expect("restore")
        .document
        .expect("another document");
    assert!(restored.same(&json(before)));
}

#[test]
fn only_an_expected_node_is_taken_out() {
    let before = r#"{"providers":{"a":{"n":1}}}"#;
    let change = remove_omp_provider("a", file(before), PATH).expect("remove");
    assert_eq!(text(&change.outcome.expect("the node")), r#"{"n":1}"#);
    assert_eq!(
        change.write.expect("a write").bytes,
        b"{\n  \"providers\": {}\n}\n".to_vec()
    );
    let change = remove_omp_provider("b", file(before), PATH).expect("nothing to remove");
    assert!(change.outcome.is_none() && change.write.is_none());
    let node = json(r#"{"n":1}"#);
    let change = remove_omp_provider_if_matches("a", &node, file(before), PATH).expect("remove");
    assert!(change.outcome && change.write.is_some());
    let change = remove_omp_provider_if_matches("b", &node, file(before), PATH).expect("nothing");
    assert!(!change.outcome && change.write.is_none());
    let error = remove_omp_provider_if_matches("a", &json("{}"), file(before), PATH)
        .expect_err("another node");
    assert_eq!(
        error,
        AppError::Conflict("OMP provider 'a' changed outside CC Switch".to_string())
    );
}

#[test]
fn restoring_needs_a_free_key() {
    let before = r#"{"providers":{"a":{"n":1}}}"#;
    let change = restore_omp_provider_if_missing("a", &json(r#"{"n":1}"#), file(before), PATH)
        .expect("it is there");
    assert!(change.write.is_none());
    let error = restore_omp_provider_if_missing("a", &json("{}"), file(before), PATH)
        .expect_err("another node");
    assert_eq!(
        error,
        AppError::Conflict(
            "cannot restore OMP provider 'a' because another value now owns the key".to_string()
        )
    );
    let change = restore_omp_provider_if_missing("", &json("null"), file(before), PATH)
        .expect("any node under any key");
    let stored = store(change.write.expect("a write"), file(before));
    assert_eq!(omp_provider_exists("", stored, PATH), Ok(true));
}

#[test]
fn a_file_may_have_one_mebibyte() {
    assert_eq!(check_file_length(1_048_576, "OMP config", "/c"), Ok(()));
    let error = Err(AppError::InvalidInput(
        "OMP config file exceeds the 1 MiB limit: /c".to_string(),
    ));
    assert_eq!(check_file_length(1_048_577, "OMP config", "/c"), error);
    assert_eq!(
        read_file_limited(vec![b' '; 1_048_576], "OMP config", "/c").map(|bytes| bytes.len()),
        Ok(1_048_576)
    );
    assert!(read_file_limited(vec![b' '; 1_048_577], "OMP config", "/c").is_err());
}

#[test]
fn equality_looks_at_numbers_and_not_at_the_order_of_entries() {
    let same = |a: &str, b: &str| json(a).same(&json(b));
    assert!(same(r#"{"a":[1,{"b":null}],"c":"d"}"#, r#"{"c":"d","a":[1,{"b":null}]}"#));
    assert!(same("0.0", "-0.0"));
    assert!(same("18446744073709551615", "18446744073709551615"));
    assert!(!same("-1", "18446744073709551615"));
    assert!(!same("1", "1.0"));
    assert!(!same("[1,2]", "[2,1]"));
    assert!(!same("[1]", "[1,1]"));
    assert!(!same(r#"{"a":1}"#, r#"{"a":1,"b":1}"#));
    assert!(!same(r#"{"a":1}"#, r#"{"b":1}"#));
    assert!(!same("true", "false"));
    assert!(!same("null", "\"null\""));
}

#[test]
fn strings_survive_being_written_and_read() {
    let node = json(r#"{"s": "tab\t quote\" back\\ nul\u0000 bell\u0007 é 😀 /", "n": [-9223372036854775808, 1e300, -0.0, 0.1]}"#);
    let change = insert_omp_provider("k\n'\"", &node, None, PATH).expect("insert");
    let stored = store(change.write.expect("a write"), None);
    let found = read_omp_native_provider("k\n'\"", stored, PATH).expect("read").expect("the node");
    assert_eq!(text(&found), text(&node));
}

#[test]
fn a_line_separator_is_not_read_back() {
    let node = json("{\"s\": \"a\u{2028}b\"}");
    let change = insert_omp_provider("k", &node, None, PATH).expect("insert");
    let stored = store(change.write.expect("a write"), None);
    assert!(matches!(
        read_omp_native_provider("k", stored, PATH),
        Err(AppError::Config(_))
    ));
}

#[test]
fn providers_keep_their_order() {
    let map = collect_providers(&json(r#"{"providers":{"z":1,"a":2,"m":3}}"#), PATH).expect("map");
    let entries: Vec<(String, String)> =
        map.iter().map(|(key, value)| (key.clone(), text(value))).collect();
    assert_eq!(
        entries,
        [("z", "1"), ("a", "2"), ("m", "3")]
            .map(|(key, value)| (key.to_string(), value.to_string()))
    );
    assert!(read_omp_native_providers(None, PATH).expect("no file").is_empty());
}
