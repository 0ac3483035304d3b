use codex_plus_core::keys::{
    has_any_provider, nvidia_key, opencode_key, openrouter_key, provider_key, ProviderKeys,
};

#[test]
fn bundled_provider_keys_are_available_when_configured() {
    let keys = ProviderKeys::new("opencode-test-key", "openrouter-test-key", "nvidia-test-key");
    if !has_any_provider(&keys) {
        return;
    }
    assert!(provider_key(&keys, "opencode").is_some());
    assert!(provider_key(&keys, "openrouter").is_some());
    assert!(provider_key(&keys, "nvidia").is_some());
}

#[test]
fn blank_or_unknown_providers_have_no_key() {
    let keys = ProviderKeys::new(" \t ", "", "nv-key");
    assert_eq!(provider_key(&keys, "opencode"), None);
    assert_eq!(provider_key(&keys, "openrouter"), None);
    assert_eq!(provider_key(&keys, "nvidia"), Some("nv-key"));
    assert_eq!(provider_key(&keys, "anthropic"), None);
    assert_eq!(provider_key(&keys, "NVIDIA"), None);
    assert!(has_any_provider(&keys));
    assert!(!has_any_provider(&ProviderKeys::new("", " ", "\n")));
    assert_eq!(opencode_key(&keys), " \t ");
    assert_eq!(openrouter_key(&keys), "");
    assert_eq!(nvidia_key(&keys), "nv-key");
}

#[test]
fn env_file_fills_keys_that_the_environment_left_empty() {
    let file = "# FreeCodex keys\nexport OPENCODE_API_KEY=\"oc-file\"\n\n  export NVIDIA_API_KEY = 'nv-file'  \r\nOPENROUTER_API_KEY=ignored\nexport OPENROUTER_API_KEY\nexport NVIDIA_API_KEY=second";
    let keys = ProviderKeys::from_sources("", "", "", Some(file));
    assert_eq!(keys.opencode, "oc-file");
    assert_eq!(keys.openrouter, "");
    assert_eq!(keys.nvidia, "nv-file");
    let keys = ProviderKeys::from_sources("oc-env", "", "", Some("export OPENCODE_API_KEY=oc-file\nexport OPENROUTER_API_KEY=\"'or'\""));
    assert_eq!(keys.opencode, "oc-env");
    assert_eq!(keys.openrouter, "or");
    let keys = ProviderKeys::from_sources("a", "b", "c", None);
    assert_eq!((keys.opencode.as_str(), keys.openrouter.as_str(), keys.nvidia.as_str()), ("a", "b", "c"));
}
