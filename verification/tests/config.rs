use posthog_cli_rs::commands::config::{run_set, SetArgs};
use posthog_cli_rs::config::{
    config_file_text, global_config_dir_for, global_config_path_for, load_config_from, non_empty,
    global_config_path, require_config_from, save_global_config, SysPath, strip_trailing_slash, to_partial, Config,
    PartialConfig,
};
use posthog_cli_rs::errors::ErrorCode;

fn none() -> PartialConfig {
    PartialConfig { api_key: None, project_id: None, host: None }
}

fn some(api_key: &str, project_id: &str, host: &str) -> PartialConfig {
    PartialConfig {
        api_key: Some(api_key.to_string()),
        project_id: Some(project_id.to_string()),
        host: Some(host.to_string()),
    }
}

/// What reading back the saved config file gives, with no environment
/// variables and no local file.
fn reload(saved: &Config) -> Config {
    load_config_from(&none(), &to_partial(saved), &none())
}

#[test]
fn load_returns_defaults_when_nothing_is_set() {
    let config = load_config_from(&none(), &none(), &none());
    assert_eq!(config.api_key, "");
    assert_eq!(config.project_id, "");
    assert_eq!(config.host, "https://us.posthog.com");
}

#[test]
fn env_vars_win_over_global_and_local() {
    let env = some("phx_env_key", "env_project", "https://eu.posthog.com");
    let config = load_config_from(&env, &none(), &none());

    assert_eq!(config.api_key, "phx_env_key");
    assert_eq!(config.project_id, "env_project");
    assert_eq!(config.host, "https://eu.posthog.com");
}

#[test]
fn env_vars_win_over_files_that_set_everything() {
    let env = some("phx_env_key", "env_project", "https://eu.posthog.com");
    let global = some("phx_global", "global_pid", "https://us.posthog.com");
    let local = some("phx_local", "local_pid", "https://us.posthog.com");
    let config = load_config_from(&env, &global, &local);
    assert_eq!(config.api_key, "phx_env_key");
    assert_eq!(config.project_id, "env_project");
    assert_eq!(config.host, "https://eu.posthog.com");
}

#[test]
fn local_config_only_sets_project_id() {
    let global = some("phx_global", "global_pid", "https://us.posthog.com");
    let local = some("phx_MALICIOUS", "local_pid", "https://attacker.com");

    let config = load_config_from(&none(), &global, &local);

    // apiKey and host come from global only
    assert_eq!(config.api_key, "phx_global");
    assert_eq!(config.host, "https://us.posthog.com");
    // projectId is honored from local (takes priority over global when set)
    assert_eq!(config.project_id, "local_pid");
}

#[test]
fn empty_values_count_as_unset() {
    let env = some("", "", "");
    let global = some("phx_global", "", "https://eu.posthog.com");
    let local = some("", "local_pid", "");
    let config = load_config_from(&env, &global, &local);
    assert_eq!(config.api_key, "phx_global");
    assert_eq!(config.project_id, "local_pid");
    assert_eq!(config.host, "https://eu.posthog.com");
    assert_eq!(non_empty(Some(String::new())), None);
    assert_eq!(non_empty(Some("x".to_string())), Some("x".to_string()));
    assert_eq!(non_empty(None), None);
}

#[test]
fn global_project_id_applies_without_local() {
    let global = some("phx_global", "global_pid", "https://us.posthog.com");
    let config = load_config_from(&none(), &global, &none());
    assert_eq!(config.project_id, "global_pid");
}

#[test]
fn global_config_roundtrip() {
    let saved = save_global_config(
        &PartialConfig {
            api_key: Some("phx_saved".into()),
            project_id: Some("999".into()),
            host: Some("https://us.posthog.com".into()),
        },
        &none(),
    )
    .expect("save ok");

    assert_eq!(saved.api_key, "phx_saved");
    assert_eq!(saved.project_id, "999");
    assert_eq!(saved.host, "https://us.posthog.com");

    // The file holds the pretty JSON of the saved config and a final newline.
    let mut members = serde_json::Map::new();
    members.insert("apiKey".into(), serde_json::Value::String(saved.api_key.clone()));
    members.insert("projectId".into(), serde_json::Value::String(saved.project_id.clone()));
    members.insert("host".into(), serde_json::Value::String(saved.host.clone()));
    let raw = config_file_text(
        &serde_json::to_string_pretty(&serde_json::Value::Object(members)).unwrap(),
    );
    let value: serde_json::Value = serde_json::from_str(&raw).unwrap();
    let field = |k: &str| value.get(k).and_then(|v| v.as_str()).map(|v| v.to_string());
    let stored = PartialConfig {
        api_key: field("apiKey"),
        project_id: field("projectId"),
        host: field("host"),
    };
    let parsed = load_config_from(&none(), &stored, &none());
    assert_eq!(parsed.api_key, "phx_saved");
    assert_eq!(parsed.project_id, "999");
    assert_eq!(parsed.host, "https://us.posthog.com");
    // File should end with a trailing newline
    assert!(raw.ends_with('\n'));
    let again = reload(&saved);
    assert_eq!(again.api_key, "phx_saved");
    assert_eq!(again.project_id, "999");
    assert_eq!(again.host, "https://us.posthog.com");
}

#[test]
fn save_merges_with_existing_values() {
    let first = save_global_config(
        &PartialConfig {
            api_key: Some("phx_first".into()),
            project_id: Some("111".into()),
            host: Some("https://us.posthog.com".into()),
        },
        &none(),
    )
    .unwrap();

    // Now only update project_id; api_key and host should persist
    let merged = save_global_config(
        &PartialConfig {
            api_key: None,
            project_id: Some("222".into()),
            host: None,
        },
        &to_partial(&first),
    )
    .unwrap();

    assert_eq!(merged.api_key, "phx_first");
    assert_eq!(merged.project_id, "222");
    assert_eq!(merged.host, "https://us.posthog.com");
}

#[test]
fn save_defaults_host_and_keeps_empty_key() {
    let saved = save_global_config(
        &PartialConfig { api_key: None, project_id: Some("5".into()), host: None },
        &none(),
    )
    .unwrap();
    assert_eq!(saved.api_key, "");
    assert_eq!(saved.project_id, "5");
    assert_eq!(saved.host, "https://us.posthog.com");
    let again = save_global_config(
        &PartialConfig { api_key: None, project_id: Some("5".into()), host: None },
        &to_partial(&saved),
    )
    .unwrap();
    assert_eq!(again.api_key, saved.api_key);
    assert_eq!(again.project_id, saved.project_id);
    assert_eq!(again.host, saved.host);
}

#[test]
fn require_config_returns_ok_when_both_env_vars_set() {
    let env = PartialConfig {
        api_key: Some("phx_required".into()),
        project_id: Some("12345".into()),
        host: None,
    };
    let config = require_config_from(&env, &none(), &none()).expect("both set, should be Ok");
    assert_eq!(config.api_key, "phx_required");
    assert_eq!(config.project_id, "12345");
}

#[test]
fn require_config_errors_when_api_key_missing() {
    let env = PartialConfig { api_key: None, project_id: Some("12345".into()), host: None };
    let err = require_config_from(&env, &none(), &none()).expect_err("should error");
    assert_eq!(err.code, ErrorCode::AuthMissing);
    assert!(err.message.contains("No API key configured"));
    assert_eq!(
        err.hint.as_deref(),
        Some("Run `posthog login` or `posthog config set --api-key <key>`, or set POSTHOG_API_KEY.")
    );
}

#[test]
fn require_config_errors_when_project_id_missing() {
    let env = PartialConfig { api_key: Some("phx_test".into()), project_id: None, host: None };
    let err = require_config_from(&env, &none(), &none()).expect_err("should error");
    assert_eq!(err.code, ErrorCode::AuthMissing);
    assert!(err.message.contains("No project ID configured"));
}

#[test]
fn require_config_checks_api_key_first() {
    let err = require_config_from(&none(), &none(), &none()).expect_err("should error");
    assert_eq!(err.message, "No API key configured.");
}

#[test]
fn save_rejects_invalid_host() {
    let err = save_global_config(
        &PartialConfig {
            api_key: None,
            project_id: None,
            host: Some("https://attacker.com".into()),
        },
        &none(),
    )
    .expect_err("should reject");

    assert_eq!(err.code, ErrorCode::Validation);
    assert!(err.message.contains("Invalid host"));
    assert_eq!(
        err.message,
        "Invalid host \"https://attacker.com\". Allowed: https://us.posthog.com, https://eu.posthog.com"
    );
}

#[test]
fn save_accepts_allowed_host_with_trailing_slash() {
    let saved = save_global_config(
        &PartialConfig { api_key: None, project_id: None, host: Some("https://eu.posthog.com/".into()) },
        &none(),
    )
    .expect("trailing slash is allowed");
    assert_eq!(saved.host, "https://eu.posthog.com/");
    let err = save_global_config(
        &PartialConfig { api_key: None, project_id: None, host: Some("https://eu.posthog.com//".into()) },
        &none(),
    )
    .expect_err("only one trailing slash is dropped");
    assert_eq!(err.code, ErrorCode::Validation);
    let err = save_global_config(
        &PartialConfig { api_key: None, project_id: None, host: Some(String::new()) },
        &none(),
    )
    .expect_err("an empty host is no allowed host");
    assert_eq!(err.code, ErrorCode::Validation);
}

#[test]
fn strip_trailing_slash_removes_one_slash() {
    assert_eq!(strip_trailing_slash("https://us.posthog.com/"), "https://us.posthog.com");
    assert_eq!(strip_trailing_slash("a//"), "a/");
    assert_eq!(strip_trailing_slash("abc"), "abc");
    assert_eq!(strip_trailing_slash(""), "");
}

#[test]
fn run_set_requires_a_value() {
    let err = run_set(&SetArgs { api_key: None, project_id: None, host: None }, &none())
        .expect_err("nothing to set");
    assert_eq!(err.code, ErrorCode::Validation);
    assert_eq!(err.message, "Provide at least one of --api-key, --project-id, or --host.");
}

#[test]
fn run_set_saves_over_existing() {
    let existing = some("phx_old", "1", "https://eu.posthog.com");
    let config = run_set(
        &SetArgs { api_key: Some("phx_new".into()), project_id: None, host: None },
        &existing,
    )
    .unwrap();
    assert_eq!(config.api_key, "phx_new");
    assert_eq!(config.project_id, "1");
    assert_eq!(config.host, "https://eu.posthog.com");
    let err = run_set(
        &SetArgs { api_key: None, project_id: None, host: Some("http://localhost".into()) },
        &existing,
    )
    .expect_err("host not allowed");
    assert_eq!(err.code, ErrorCode::Validation);
}

#[test]
fn global_config_paths_follow_home() {
    assert_eq!(global_config_dir_for(Some("/home/alice".into())), "/home/alice/.config/posthog");
    assert_eq!(
        global_config_path_for(Some("/home/alice".into())),
        "/home/alice/.config/posthog/config.json"
    );
    assert_eq!(global_config_dir_for(None), "./.config/posthog");
}

#[test]
fn defaults_are_empty() {
    let c = Config::default();
    assert_eq!(c.api_key, "");
    assert_eq!(c.project_id, "");
    assert_eq!(c.host, "");
    let p = PartialConfig::default();
    assert!(p.api_key.is_none() && p.project_id.is_none() && p.host.is_none());
}

#[test]
fn global_config_path_ends_in_config_json() {
    match global_config_path() {
        SysPath::Text(t) => assert!(t.ends_with(".config/posthog/config.json")),
        SysPath::Raw(p) => assert!(p.ends_with(".config/posthog/config.json")),
    }
}
