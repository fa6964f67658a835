use omp_config::config::{compose_role, read_omp_default_role};
use omp_config::error::AppError;
use omp_config::models::read_omp_native_providers;
use omp_config::settings::{read_omp_native_defaults, OmpNativeDefaults};
use omp_config::state::{split_default_role, OmpStateService, PrimeStateService};

const MODELS: &str = "/agent/models.json";
const CONFIG: &str = "/agent/config.yml";
const SETTINGS: &str = "/agent/settings.json";

const FOUR_PROVIDERS: &str = r#"{
                "providers": {
                    "cc-switch-managed": {
                        "name": "Managed",
                        "baseUrl": "https://api.example.com/v1",
                        "api": "openai-completions",
                        "models": [{ "id": "model-a" }]
                    },
                    "native-oauth": {
                        "oauth": "example",
                        "baseUrl": "https://api.example.com/v1",
                        "api": "openai-completions",
                        "models": [{ "id": "model-b" }]
                    },
                    "anthropic": {},
                    "unsupported": {
                        "futureField": true
                    }
                }
            }"#;

const ONE_PROVIDER: &str = r#"{
                "providers": {
                    "cc-switch-managed": {
                        "name": "Managed",
                        "baseUrl": "https://api.example.com/v1",
                        "api": "openai-completions",
                        "models": [{ "id": "model-a" }]
                    }
                }
            }"#;

fn file(text: &str) -> Option<Vec<u8>> {
    Some(text.as_bytes().to_vec())
}

#[test]
fn omp_state_state_exposes_every_explicit_provider_node() {
    let native = read_omp_native_providers(file(FOUR_PROVIDERS), MODELS);
    let role = read_omp_default_role(
        file("modelRoles:\n  default: cc-switch-managed/model-a:xhigh\n"),
        CONFIG,
    );
    let current = OmpStateService::current(native, role).expect("read state");
    assert_eq!(
        current.enabled_provider_ids,
        vec![
            "cc-switch-managed".to_string(),
            "native-oauth".to_string(),
            "anthropic".to_string(),
            "unsupported".to_string(),
        ]
    );
    assert_eq!(current.default_provider_id.as_deref(), Some("cc-switch-managed"));
    assert_eq!(current.default_model.as_deref(), Some("model-a:xhigh"));
}

#[test]
fn invalid_global_config_does_not_hide_provider_membership() {
    let native = read_omp_native_providers(file(ONE_PROVIDER), MODELS);
    let role = read_omp_default_role(file("{not-yaml: [unclosed"), CONFIG);
    assert!(role.is_err());
    let current = OmpStateService::current(native, role).expect("read membership");
    assert_eq!(current.enabled_provider_ids, vec!["cc-switch-managed".to_string()]);
    assert_eq!(current.default_provider_id, None);
    assert_eq!(current.default_model, None);
}

#[test]
fn role_without_slash_selects_no_default() {
    assert_eq!(split_default_role("bare-model"), (None, None));
    assert_eq!(split_default_role("/model"), (None, None));
    assert_eq!(
        split_default_role("prov/model:xhigh"),
        (Some("prov".to_string()), Some("model:xhigh".to_string()))
    );
}

#[test]
fn prime_state_state_exposes_every_explicit_provider_node() {
    let native = read_omp_native_providers(file(FOUR_PROVIDERS), MODELS);
    let defaults = read_omp_native_defaults(
        file(r#"{"defaultProvider":"cc-switch-managed","defaultModel":"model-a"}"#),
        SETTINGS,
    );
    let default_provider = defaults.map(|defaults| defaults.default_provider);
    let current = PrimeStateService::current(native, default_provider).expect("read state");
    assert_eq!(
        current.enabled_provider_ids,
        vec![
            "cc-switch-managed".to_string(),
            "native-oauth".to_string(),
            "anthropic".to_string(),
            "unsupported".to_string(),
        ]
    );
    assert_eq!(current.default_provider_id.as_deref(), Some("cc-switch-managed"));
}

#[test]
fn invalid_global_settings_do_not_hide_provider_membership() {
    let native = read_omp_native_providers(file(ONE_PROVIDER), MODELS);
    let defaults = read_omp_native_defaults(file("[]"), SETTINGS);
    assert!(defaults.is_err());
    let default_provider = defaults.map(|defaults| defaults.default_provider);
    let current = PrimeStateService::current(native, default_provider).expect("read membership");
    assert_eq!(current.enabled_provider_ids, vec!["cc-switch-managed".to_string()]);
    assert_eq!(current.default_provider_id, None);
}

#[test]
fn unreadable_providers_are_an_error() {
    let error = || AppError::Io { path: MODELS.to_string(), message: "denied".to_string() };
    assert_eq!(
        OmpStateService::current(Err(error()), Ok(Some("a/b".to_string()))),
        Err(error())
    );
    assert_eq!(PrimeStateService::current(Err(error()), Ok(None)), Err(error()));
    assert_eq!(error().message(), "denied");
}

#[test]
fn a_role_is_split_at_its_first_slash() {
    assert_eq!(split_default_role(""), (None, None));
    assert_eq!(split_default_role("/"), (None, None));
    assert_eq!(split_default_role("prov/"), (Some("prov".to_string()), None));
    assert_eq!(
        split_default_role("é/a/b"),
        (Some("é".to_string()), Some("a/b".to_string()))
    );
    for role in ["prov/model:xhigh", "p/a/b", "p/"] {
        let (provider, model) = split_default_role(role);
        assert_eq!(
            format!("{}/{}", provider.expect("a provider"), model.unwrap_or_default()),
            role
        );
    }
}

#[test]
fn a_written_role_is_shown_with_the_tail_before() {
    let role = compose_role("prov", "a/model", Some("old/one:high".to_string()));
    assert_eq!(
        split_default_role(&role),
        (Some("prov".to_string()), Some("a/model:high".to_string()))
    );
}

#[test]
fn settings_choose_strings_or_nothing() {
    assert_eq!(
        read_omp_native_defaults(None, SETTINGS),
        Ok(OmpNativeDefaults::default())
    );
    assert_eq!(
        read_omp_native_defaults(
            file("{defaultProvider: null, defaultModel: 'm', sessionDir: \"/s\", more: 1}"),
            SETTINGS
        ),
        Ok(OmpNativeDefaults {
            default_provider: None,
            default_model: Some("m".to_string()),
            session_dir: Some("/s".to_string()),
        })
    );
    let error = |text: &str| {
        read_omp_native_defaults(file(text), SETTINGS)
            .expect_err("an error")
            .message()
            .to_string()
    };
    assert_eq!(error("[]"), "OMP settings root must be an object: /agent/settings.json");
    assert_eq!(
        error("{sessionDir: 1, defaultModel: []}"),
        "OMP settings 'defaultModel' must be a string: /agent/settings.json"
    );
    assert_eq!(
        error("{sessionDir: false}"),
        "OMP settings 'sessionDir' must be a string: /agent/settings.json"
    );
    assert_eq!(
        error("{defaultProvider: 1, sessionDir: false}"),
        "OMP settings 'defaultProvider' must be a string: /agent/settings.json"
    );
    assert!(error("{").starts_with(
        "OMP settings file is not valid JSON/JSONC (/agent/settings.json): "
    ));
}
