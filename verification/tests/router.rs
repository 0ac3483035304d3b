use codex_plus_core::json::JsonValue;
use codex_plus_core::keys::ProviderKeys;
use codex_plus_core::router::{
    all_endpoints, available_endpoints, inject_downgrade_warning, is_event_stream, is_gpt_model,
    plan_freecodex_route, requested_stream, route_retry_delay, set_request_model,
    should_failover_status, shuffle_endpoints, single_model_list_json, tier_for_routing, truncate,
    ModelTier, DEFAULT_MODEL_ID, MAX_ROUTE_ATTEMPTS,
};

fn configured_keys() -> ProviderKeys {
    ProviderKeys::new("opencode-test-key", "openrouter-test-key", "nvidia-test-key")
}

fn text(v: &JsonValue) -> &str {
    v.as_str().unwrap()
}

#[test]
fn detects_upstream_gpt_models_internally() {
    assert!(is_gpt_model("gpt-5.5"));
    assert!(!is_gpt_model(DEFAULT_MODEL_ID));
    assert!(!is_gpt_model("freecodex-reasoning"));
}

#[test]
fn gpt_detection_covers_the_documented_families() {
    assert!(is_gpt_model("  GPT-4o  "));
    assert!(is_gpt_model("openai/gpt-4.1"));
    assert!(is_gpt_model("o3-mini"));
    assert!(is_gpt_model("o1"));
    assert!(is_gpt_model("text-davinci-003"));
    assert!(is_gpt_model("ChatGPT-latest"));
    assert!(!is_gpt_model("gpt-oss-120b"));
    assert!(!is_gpt_model("openai/gpt-oss-20b"));
    assert!(!is_gpt_model(""));
    assert!(!is_gpt_model("   "));
    assert!(!is_gpt_model("FreeCodex"));
    assert!(!is_gpt_model("freecodex-premium-opus"));
    assert!(!is_gpt_model("deepseek-v4-flash-free"));
    assert!(!is_gpt_model("big-pickle"));
}

#[test]
fn default_route_is_free_daily_pool() {
    let plan = plan_freecodex_route("gpt-5.5", 0).unwrap();
    assert_eq!(plan.tier, ModelTier::Daily);
    assert_eq!(plan.required_credits, 0);
}

#[test]
fn premium_prefix_reserved_for_future_redemption() {
    let plan = plan_freecodex_route("freecodex-premium-opus", 100).unwrap();
    assert_eq!(plan.tier, ModelTier::Premium);
}

#[test]
fn reasoning_model_routes_to_reasoning_pool() {
    let plan = plan_freecodex_route("freecodex-reasoning", -5).unwrap();
    assert_eq!(plan.tier, ModelTier::Reasoning);
    assert_eq!(plan.required_credits, 0);
    assert!(!plan.inject_downgrade_warning);
    let plan = plan_freecodex_route(" freecodex-reasoning", 0).unwrap();
    assert_eq!(plan.tier, ModelTier::Daily);
}

#[test]
fn premium_tier_draws_from_reasoning_pool() {
    assert_eq!(tier_for_routing(ModelTier::Premium), ModelTier::Reasoning);
    assert_eq!(tier_for_routing(ModelTier::Daily), ModelTier::Daily);
    let keys = configured_keys();
    let premium = available_endpoints(ModelTier::Premium, &keys);
    let reasoning = available_endpoints(ModelTier::Reasoning, &keys);
    assert_eq!(premium.len(), reasoning.len());
    for (a, b) in premium.iter().zip(reasoning.iter()) {
        assert_eq!(a.model, b.model);
    }
}

#[test]
fn single_model_list_hides_provider_catalog() {
    let json = single_model_list_json();
    let data = json.get("data").unwrap().as_array().unwrap();
    assert_eq!(data.len(), 1);
    assert_eq!(text(data[0].get("id").unwrap()), DEFAULT_MODEL_ID);
    assert_eq!(text(data[0].get("name").unwrap()), "Assistant");
    assert_eq!(data[0].get("created").unwrap().as_u64(), Some(1686935002));
}

#[test]
fn shuffle_preserves_all_endpoints() {
    let all = all_endpoints();
    let sample = vec![all[0].clone(), all[1].clone(), all[2].clone()];
    let shuffled = shuffle_endpoints(sample.clone(), 7, 1_700_000_000_000_000_000);
    assert_eq!(shuffled.len(), sample.len());
    for e in &sample {
        assert_eq!(shuffled.iter().filter(|s| s.model == e.model).count(), 1);
    }
}

#[test]
fn shuffle_of_one_endpoint_is_unchanged() {
    let all = all_endpoints();
    let single = vec![all[4]];
    let shuffled = shuffle_endpoints(single, 3, 99);
    assert_eq!(shuffled.len(), 1);
    assert_eq!(shuffled[0].model, "nemotron-3-ultra-free");
}

#[test]
fn shuffle_follows_the_linear_congruential_swaps() {
    // seed 0: position i swaps with i % (i + 1) == i, so the order stays.
    let all = all_endpoints();
    let shuffled = shuffle_endpoints(all.clone(), 0, 0);
    for (a, b) in shuffled.iter().zip(all.iter()) {
        assert_eq!(a.model, b.model);
    }
    // seed 1: i = 2 swaps with (C + 2) % 3 == 2, then i = 1 with (C + 1) % 2 == 0.
    let sample = vec![all[0], all[1], all[2]];
    let shuffled = shuffle_endpoints(sample, 1, 0);
    assert_eq!(shuffled[0].model, "mimo-v2.5-free");
    assert_eq!(shuffled[1].model, "deepseek-v4-flash-free");
    assert_eq!(shuffled[2].model, "north-mini-code-free");
}

#[test]
fn route_retry_budget_is_one_thousand() {
    assert_eq!(MAX_ROUTE_ATTEMPTS, 1000);
}

#[test]
fn bundled_keys_expose_full_free_pool() {
    let keys = configured_keys();
    let daily = available_endpoints(ModelTier::Daily, &keys);
    let reasoning = available_endpoints(ModelTier::Reasoning, &keys);
    assert!(!daily.is_empty());
    assert!(!reasoning.is_empty());
}

#[test]
fn pool_sizes_follow_the_endpoint_table() {
    let keys = configured_keys();
    assert_eq!(available_endpoints(ModelTier::Daily, &keys).len(), 7);
    assert_eq!(available_endpoints(ModelTier::Reasoning, &keys).len(), 5);
    let only_nvidia = ProviderKeys::new("", "  ", "nvidia-test-key");
    let daily = available_endpoints(ModelTier::Daily, &only_nvidia);
    assert_eq!(daily.len(), 2);
    assert!(daily.iter().all(|e| e.provider == "nvidia"));
    let none = ProviderKeys::new("", "", "");
    assert!(available_endpoints(ModelTier::Reasoning, &none).is_empty());
}

#[test]
fn provider_failures_failover_across_free_pool() {
    assert!(should_failover_status(400));
    assert!(should_failover_status(422));
    assert!(should_failover_status(429));
    assert!(should_failover_status(503));
}

#[test]
fn other_statuses_do_not_fail_over() {
    assert!(!should_failover_status(200));
    assert!(!should_failover_status(405));
    assert!(!should_failover_status(501));
    assert!(should_failover_status(529));
    assert!(should_failover_status(520));
}

#[test]
fn route_retry_delay_grows_and_caps() {
    let first = route_retry_delay(1, 0);
    let later = route_retry_delay(40, 1);
    let capped = route_retry_delay(1000, 2);

    assert!(first >= 250);
    assert!(later > first);
    assert!(capped <= 6_255);
}

#[test]
fn route_retry_delay_exact_values() {
    assert_eq!(route_retry_delay(0, 0), 250);
    assert_eq!(route_retry_delay(1, 0), 250);
    assert_eq!(route_retry_delay(2, 0), 325);
    assert_eq!(route_retry_delay(2, 257), 326);
    assert_eq!(route_retry_delay(78, 0), 6000);
    assert_eq!(route_retry_delay(1000, 255), 6255);
}

#[test]
fn truncate_keeps_short_text_and_marks_cut_text() {
    assert_eq!(truncate("short", 256), "short");
    assert_eq!(truncate("abcdef", 3), "abc…");
    assert_eq!(truncate("算力告警", 2), "算力…");
    assert_eq!(truncate("abc", 3), "abc");
}

#[test]
fn downgrade_warning_goes_first() {
    let mut messages = JsonValue::Array(vec![JsonValue::String("hi".to_string())]);
    inject_downgrade_warning(&mut messages);
    let items = messages.as_array().unwrap();
    assert_eq!(items.len(), 2);
    assert_eq!(text(items[0].get("role").unwrap()), "system");
    assert!(text(items[0].get("content").unwrap()).starts_with("IMPORTANT: You MUST begin"));
    assert_eq!(text(&items[1]), "hi");
    let mut not_a_list = JsonValue::Bool(true);
    inject_downgrade_warning(&mut not_a_list);
    assert_eq!(not_a_list.as_bool(), Some(true));
}

#[test]
fn request_model_and_stream_flag() {
    let mut request = JsonValue::Null;
    set_request_model(&mut request, "big-pickle");
    assert_eq!(text(request.get("model").unwrap()), "big-pickle");
    set_request_model(&mut request, "mimo-v2.5-free");
    assert_eq!(text(request.get("model").unwrap()), "mimo-v2.5-free");
    assert!(!requested_stream(&request));
    request.insert("stream", JsonValue::Bool(true));
    assert!(requested_stream(&request));
    assert!(is_event_stream(false, "text/event-stream; charset=utf-8"));
    assert!(!is_event_stream(false, "application/json"));
    assert!(is_event_stream(true, ""));
}
