use std::path::PathBuf;

use codex_plus_core::json::{JsonEntry, JsonValue};
use codex_plus_core::paths::{
    default_app_state_dir, default_diagnostic_log_path, default_latest_status_path,
    default_settings_path, dismiss_latest_version, hide_first_thread_promos, legacy_app_state_dir,
    null_model_promotion_field, resolve_codex_home_dir, set_settings_path_for_tests,
    strip_model_promotion_fields, update_prompt_report, AppPath, PathEnvironment,
};

fn env_with_home() -> PathEnvironment {
    PathEnvironment {
        codex_home: None,
        app_state: None,
        home_dir: Some("/home/tester".to_string()),
        settings_path_override: None,
    }
}

fn path_of(p: &AppPath) -> PathBuf {
    p.parts.iter().collect()
}

fn s(t: &str) -> JsonValue {
    JsonValue::String(t.to_string())
}

fn obj(pairs: Vec<(&str, JsonValue)>) -> JsonValue {
    JsonValue::Object(
        pairs.into_iter().map(|(k, v)| JsonEntry { key: k.to_string(), value: v }).collect(),
    )
}

#[test]
fn default_settings_path_uses_freecodex_app_state_directory() {
    let path = path_of(&default_settings_path(&env_with_home()));

    assert!(path.ends_with(".freecodex-plus/settings.json"));
}

#[test]
fn default_latest_status_path_uses_freecodex_app_state_directory() {
    let path = path_of(&default_latest_status_path(&env_with_home()));

    assert!(path.ends_with(".freecodex-plus/latest-status.json"));
}

#[test]
fn default_diagnostic_log_path_uses_freecodex_app_state_directory() {
    let path = path_of(&default_diagnostic_log_path(&env_with_home()));

    assert!(path.ends_with(".freecodex-plus/codex-plus.log"));
}

#[test]
fn resolve_codex_home_dir_defaults_to_freecodex_directory() {
    let path = path_of(&resolve_codex_home_dir(&env_with_home()));
    assert!(path.ends_with(".freecodex"));
    assert_eq!(path, PathBuf::from("/home/tester/.freecodex"));
}

#[test]
fn overrides_and_missing_home() {
    let mut env = PathEnvironment {
        codex_home: Some("/tmp/ch".to_string()),
        app_state: Some("/tmp/as".to_string()),
        home_dir: None,
        settings_path_override: None,
    };
    assert_eq!(path_of(&resolve_codex_home_dir(&env)), PathBuf::from("/tmp/ch"));
    assert_eq!(path_of(&default_app_state_dir(&env)), PathBuf::from("/tmp/as"));
    assert_eq!(path_of(&legacy_app_state_dir(&env)), PathBuf::from(".codex-session-delete"));
    let previous = set_settings_path_for_tests(
        &mut env,
        Some(AppPath { parts: vec!["/x".to_string(), "s.json".to_string()] }),
    );
    assert!(previous.is_none());
    assert_eq!(path_of(&default_settings_path(&env)), PathBuf::from("/x/s.json"));
    let previous = set_settings_path_for_tests(&mut env, None);
    assert_eq!(path_of(&previous.unwrap()), PathBuf::from("/x/s.json"));
    assert_eq!(path_of(&default_settings_path(&env)), PathBuf::from("/tmp/as/settings.json"));
}

#[test]
fn strip_model_promotion_fields_clears_upgrade_metadata() {
    let doc = obj(vec![(
        "models",
        JsonValue::Array(vec![obj(vec![
            ("slug", s("gpt-5.5")),
            ("availability_nux", obj(vec![("message", s("hello"))])),
            ("upgrade", obj(vec![("target", s("gpt-5.4"))])),
        ])]),
    )]);
    let updated = strip_model_promotion_fields(doc).expect("changed");
    let model = &updated.get("models").unwrap().as_array().unwrap()[0];
    assert!(matches!(model.get("availability_nux"), Some(JsonValue::Null)));
    assert!(matches!(model.get("upgrade"), Some(JsonValue::Null)));
    assert_eq!(model.get("slug").unwrap().as_str(), Some("gpt-5.5"));
    assert!(strip_model_promotion_fields(updated).is_none());
}

#[test]
fn strip_without_models_changes_nothing() {
    assert!(strip_model_promotion_fields(obj(vec![("other", s("x"))])).is_none());
    assert!(strip_model_promotion_fields(obj(vec![("models", s("x"))])).is_none());
    let plain = obj(vec![("models", JsonValue::Array(vec![obj(vec![("upgrade", JsonValue::Null)])]))]);
    assert!(strip_model_promotion_fields(plain).is_none());
    let mut entries = vec![JsonEntry { key: "upgrade".to_string(), value: s("x") }];
    assert!(null_model_promotion_field(&mut entries, "upgrade"));
    assert!(!null_model_promotion_field(&mut entries, "upgrade"));
    assert!(!null_model_promotion_field(&mut entries, "availability_nux"));
}

#[test]
fn suppress_update_prompt_dismisses_latest_version_and_hides_promos() {
    let version = obj(vec![("latest_version", s("0.139.0")), ("dismissed_version", s("0.137.0"))]);
    let updated = dismiss_latest_version(version).expect("dismissed");
    assert_eq!(updated.get("dismissed_version").unwrap().as_str(), Some("0.139.0"));
    assert!(dismiss_latest_version(updated).is_none());

    let state = obj(vec![(
        "electron-persisted-atom-state",
        obj(vec![("electron:onboarding-hide-first-new-thread-promos", JsonValue::Bool(false))]),
    )]);
    let hidden = hide_first_thread_promos(state).expect("hidden");
    let atom = hidden.get("electron-persisted-atom-state").unwrap();
    assert_eq!(
        atom.get("electron:onboarding-hide-first-new-thread-promos").unwrap().as_bool(),
        Some(true)
    );
    assert!(hide_first_thread_promos(hidden).is_none());

    let report = update_prompt_report(true, true);
    assert_eq!(report.get("status").unwrap().as_str(), Some("ok"));
    assert_eq!(report.get("version_dismissed").unwrap().as_bool(), Some(true));
    assert_eq!(report.get("promos_hidden").unwrap().as_bool(), Some(true));
}

#[test]
fn promos_state_is_created_when_missing() {
    let hidden = hide_first_thread_promos(obj(vec![])).expect("created");
    let atom = hidden.get("electron-persisted-atom-state").unwrap();
    assert_eq!(
        atom.get("electron:onboarding-hide-first-new-thread-promos").unwrap().as_bool(),
        Some(true)
    );
    assert!(hide_first_thread_promos(obj(vec![("electron-persisted-atom-state", s("x"))])).is_none());
    assert!(hide_first_thread_promos(s("x")).is_none());
    assert!(dismiss_latest_version(obj(vec![("dismissed_version", s("1"))])).is_none());
}
