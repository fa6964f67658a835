use omp_config::error::AppError;
use omp_config::json::Json;
use omp_config::json_text::from_value;
use omp_config::provider::{nonempty_string, provider_base_url, validate_provider_node};

fn json(text: &str) -> Json {
    from_value(serde_json::from_str(text).expect("JSON"))
}

#[test]
fn provider_node_accepts_unknown_native_fields() {
    let value = json(
        r#"{
            "name": "Example",
            "baseUrl": "https://api.example.com/v1",
            "api": "openai-completions",
            "apiKey": "secret",
            "models": [{"id": "example-model", "compat": {"supportsDeveloperRole": true}}],
            "sdkOption": {"timeout": 30}
        }"#,
    );
    validate_provider_node("cc-switch-example", &value).expect("valid provider");
}

#[test]
fn provider_node_ownership_depends_on_models_json_membership() {
    let oauth = json(
        r#"{
            "name": "Example",
            "baseUrl": "https://api.example.com/v1",
            "api": "openai-completions",
            "apiKey": "secret",
            "models": [{"id": "example-model"}],
            "oauth": "anthropic"
        }"#,
    );
    validate_provider_node("cc-switch-example", &oauth)
        .expect("an explicit models.json node stays manageable");
    validate_provider_node("anthropic", &json("{}"))
        .expect("a built-in provider key may be explicitly configured");
    assert!(validate_provider_node("", &json("{}")).is_err());
    assert!(validate_provider_node("anthropic", &json("\"invalid\"")).is_err());
}

#[test]
fn a_key_of_white_space_is_refused_before_the_node_is_looked_at() {
    for key in ["", " ", "\t\n", "\u{3000}\u{a0}"] {
        assert_eq!(
            validate_provider_node(key, &json("[]")),
            Err(AppError::InvalidInput("OMP provider key cannot be empty".to_string()))
        );
    }
    for node in ["null", "true", "1", "\"\"", "[{}]"] {
        assert_eq!(
            validate_provider_node(" a ", &json(node)),
            Err(AppError::InvalidInput(
                "OMP provider configuration must be an object".to_string()
            ))
        );
    }
}

#[test]
fn the_request_url_is_the_providers_own_or_that_of_the_first_model_with_one() {
    let url = |text: &str| provider_base_url(&json(text));
    assert_eq!(
        url(r#"{"baseUrl": "https://own", "models": [{"baseUrl": "https://model"}]}"#),
        Ok("https://own".to_string())
    );
    assert_eq!(
        url(r#"{"baseUrl": "", "models": [1, {"id": "a"}, {"baseUrl": ""}, {"baseUrl": 7},
            {"baseUrl": "https://b"}, {"baseUrl": "https://c"}]}"#),
        Ok("https://b".to_string())
    );
    for none in [
        "{}",
        r#"{"baseUrl": 1}"#,
        r#"{"models": []}"#,
        r#"{"models": {"baseUrl": "https://x"}}"#,
        r#"{"models": [["baseUrl"]]}"#,
    ] {
        assert_eq!(
            url(none),
            Err(AppError::InvalidInput("OMP provider has no request URL".to_string()))
        );
    }
    assert_eq!(
        url("[]"),
        Err(AppError::InvalidInput(
            "OMP provider configuration must be an object".to_string()
        ))
    );
}

#[test]
fn only_a_string_with_something_in_it_is_a_text() {
    assert_eq!(nonempty_string(None), None);
    assert_eq!(nonempty_string(Some(&json("\"\""))), None);
    assert_eq!(nonempty_string(Some(&json("null"))), None);
    assert_eq!(nonempty_string(Some(&json("\" \""))), Some(" "));
}
