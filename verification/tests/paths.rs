use omp_config::error::AppError;
use omp_config::paths::{
    accept_absolute, choose_agent_dir, default_agent_dir, get_omp_config_path,
    get_omp_models_path, get_omp_settings_path, models_parent, named_profile, require_absolute,
    resolve_omp_agent_dir, AgentDirSource, EnvOverride,
};
use std::path::PathBuf;

fn environment(path: &PathBuf) -> Option<EnvOverride> {
    Some(EnvOverride { value: path.display().to_string(), path: path.clone() })
}

#[test]
fn relative_agent_directory_is_rejected() {
    let error = resolve_omp_agent_dir(
        Some(PathBuf::from("relative/omp-agent")),
        None,
        None,
        PathBuf::from("default"),
    )
    .expect_err("relative OMP directory must be rejected");
    assert!(error.message().contains("absolute directory"));
    assert_eq!(
        error,
        AppError::InvalidInput(
            "OMP settings override must resolve to an absolute directory: relative/omp-agent"
                .to_string()
        )
    );
}

#[test]
fn settings_directory_precedes_profile_and_environment() {
    let temp = PathBuf::from("/temp");
    let settings_dir = temp.join("settings-agent");
    let env_dir = temp.join("env-agent");

    assert_eq!(
        resolve_omp_agent_dir(
            Some(settings_dir.clone()),
            Some("some-profile".to_string()),
            environment(&env_dir),
            temp.join("default-agent"),
        )
        .expect("resolve OMP directory"),
        settings_dir
    );
}

#[test]
fn profile_relocates_below_dot_omp_before_pi_fallback() {
    let temp = PathBuf::from("/temp");
    let default_agent = temp.join(".omp").join("agent");
    let env_dir = temp.join("env-agent");

    assert_eq!(
        resolve_omp_agent_dir(
            None,
            Some("cctest".to_string()),
            environment(&env_dir),
            default_agent.clone(),
        )
        .expect("resolve OMP directory"),
        temp.join(".omp").join("profiles").join("cctest").join("agent")
    );
    assert_eq!(
        resolve_omp_agent_dir(
            None,
            Some("  default  ".to_string()),
            environment(&env_dir),
            default_agent.clone(),
        )
        .expect("the default profile must not relocate"),
        env_dir
    );
    assert_eq!(
        resolve_omp_agent_dir(None, None, None, default_agent.clone())
            .expect("resolve OMP directory"),
        default_agent
    );
}

#[test]
fn each_source_names_itself_in_its_error() {
    let relative = PathBuf::from("a");
    assert_eq!(
        resolve_omp_agent_dir(None, None, environment(&relative), PathBuf::from("/b")),
        Err(AppError::InvalidInput(
            "PI_CODING_AGENT_DIR must resolve to an absolute directory: a".to_string()
        ))
    );
    assert_eq!(
        resolve_omp_agent_dir(None, None, None, relative.clone()),
        Err(AppError::InvalidInput(
            "OMP default must resolve to an absolute directory: a".to_string()
        ))
    );
    assert_eq!(
        require_absolute(PathBuf::from("/c"), "x"),
        Ok(PathBuf::from("/c"))
    );
    assert_eq!(
        accept_absolute(relative, "y", false),
        Err(AppError::InvalidInput(
            "y must resolve to an absolute directory: a".to_string()
        ))
    );
    assert_eq!(accept_absolute(PathBuf::from("a"), "y", true), Ok(PathBuf::from("a")));
}

#[test]
fn a_profile_need_not_be_absolute_and_may_have_no_parent() {
    assert_eq!(
        resolve_omp_agent_dir(None, Some(" p ".to_string()), None, PathBuf::from("/")),
        Ok(PathBuf::from("/profiles/p/agent"))
    );
    assert_eq!(
        resolve_omp_agent_dir(None, Some("p".to_string()), None, PathBuf::from("rel/agent")),
        Ok(PathBuf::from("rel/profiles/p/agent"))
    );
}

#[test]
fn profiles_of_any_name_have_a_directory_of_their_own() {
    let default = PathBuf::from("/home/user/.omp/agent");
    for name in ["a:b", "a/b", "a\\b", "..", "."] {
        assert_eq!(
            resolve_omp_agent_dir(None, Some(name.to_string()), None, default.clone()),
            Ok(PathBuf::from("/home/user/.omp").join("profiles").join(name).join("agent"))
        );
    }
}

#[test]
fn an_absolute_default_makes_every_directory_absolute() {
    let default = PathBuf::from("/d");
    for profile in [None, Some("p"), Some("a/b"), Some("/x"), Some(".."), Some("1:x"), Some("C:/x")] {
        for value in [None, Some("/e"), Some("")] {
            let environment = value.map(|value| EnvOverride {
                value: value.to_string(),
                path: PathBuf::from(value),
            });
            let found = resolve_omp_agent_dir(
                None,
                profile.map(str::to_string),
                environment,
                default.clone(),
            );
            assert!(found.expect("a directory").is_absolute());
        }
    }
    let relative = Some(EnvOverride { value: "e".to_string(), path: PathBuf::from("e") });
    assert!(resolve_omp_agent_dir(None, None, relative, default).is_err());
}

#[test]
fn an_empty_variable_counts_for_nothing() {
    let empty = Some(EnvOverride { value: String::new(), path: PathBuf::from("/x") });
    assert_eq!(
        resolve_omp_agent_dir(None, None, empty, PathBuf::from("/d")),
        Ok(PathBuf::from("/d"))
    );
}

#[test]
fn leaving_out_an_unnamed_profile_changes_nothing() {
    for value in [None, Some(""), Some(" \t"), Some("default"), Some("\ndefault ")] {
        let profile = value.map(str::to_string);
        assert_eq!(named_profile(profile.clone()), None);
        for settings in [true, false] {
            assert_eq!(
                choose_agent_dir(settings, &profile, &None),
                choose_agent_dir(settings, &None, &None)
            );
        }
    }
    assert_eq!(named_profile(Some(" p ".to_string())), Some(" p ".to_string()));
    assert_eq!(
        choose_agent_dir(false, &Some(" p ".to_string()), &None),
        AgentDirSource::Profile("p".to_string())
    );
    assert_eq!(
        choose_agent_dir(false, &Some("Default".to_string()), &None),
        AgentDirSource::Profile("Default".to_string())
    );
}

#[test]
fn files_stand_in_the_agent_directory() {
    let agent = default_agent_dir(&PathBuf::from("/home/user"));
    assert_eq!(agent, PathBuf::from("/home/user/.omp/agent"));
    assert_eq!(get_omp_models_path(&agent), agent.join("models.json"));
    assert_eq!(get_omp_settings_path(&agent), agent.join("settings.json"));
    assert_eq!(get_omp_config_path(&agent), agent.join("config.yml"));
    assert_eq!(models_parent(&get_omp_models_path(&agent)), Ok(agent));
    assert_eq!(
        models_parent(&PathBuf::from("/")),
        Err(AppError::Config("OMP models path has no parent directory: /".to_string()))
    );
}
