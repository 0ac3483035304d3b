use codex_plus_core::credits::{
    ad_reward_rejection, ad_reward_response, credit_ad_event_kind, credits_summary,
    generate_ad_nonce, legacy_credits_state, normalize_surface, restore_credits_state,
    verify_and_consume_nonce, CreditEventKind, CreditsState, NonceRegistry, INITIAL_BALANCE,
    RECENT_EVENT_LIMIT, REWARD_PER_AD,
};

#[test]
fn credits_state_tracks_rewards_and_spends() {
    let mut state = CreditsState::default();
    state.apply_ad_reward("waiting_bar", REWARD_PER_AD, 1);
    let rewarded = state;
    assert_eq!(rewarded.balance, INITIAL_BALANCE + REWARD_PER_AD);
    assert_eq!(rewarded.waiting_bar_rewards, 1);
    assert_eq!(rewarded.modal_rewards, 0);
    assert_eq!(rewarded.ad_reward_count, 1);

    let mut spendable = rewarded;
    spendable.balance = 5;
    assert!(spendable.apply_deduction(2, 2));
    let spent = spendable;
    assert_eq!(spent.balance, 3);
    assert_eq!(spent.total_spent, 2);
    assert_eq!(spent.request_count, 1);
}

#[test]
fn deduction_is_refused_when_the_balance_is_short() {
    let mut state = CreditsState::default();
    state.balance = 1;
    assert!(!state.apply_deduction(2, 0));
    assert_eq!(state.balance, 1);
    assert_eq!(state.request_count, 0);
    assert!(state.recent_events.is_empty());
    assert!(state.apply_deduction(0, 0));
    assert!(state.apply_deduction(-3, 0));
    assert_eq!(state.balance, 1);
}

#[test]
fn events_are_newest_first_and_bounded() {
    let mut state = CreditsState::default();
    for i in 0..40u64 {
        state.apply_ad_impression("modal", i);
    }
    state.apply_ad_click("Thinking ", 99);
    assert_eq!(state.recent_events.len(), RECENT_EVENT_LIMIT);
    assert_eq!(state.recent_events[0].kind, CreditEventKind::Click);
    assert_eq!(state.recent_events[0].surface, "waiting_bar");
    assert_eq!(state.recent_events[0].note, "广告点击");
    assert_eq!(state.recent_events[1].at_ms, 39);
    assert_eq!(state.ad_impression_count, 40);
    assert_eq!(state.ad_click_count, 1);
}

#[test]
fn surfaces_are_normalized() {
    assert_eq!(normalize_surface(" Waiting-Bar "), "waiting_bar");
    assert_eq!(normalize_surface("manual"), "modal");
    assert_eq!(normalize_surface("CHAT"), "request");
    assert_eq!(normalize_surface("sidebar"), "unknown");
    let mut state = CreditsState::default();
    state.apply_ad_reward("MODAL", 7, 3);
    assert_eq!(state.modal_rewards, 1);
    assert_eq!(state.waiting_bar_rewards, 0);
    assert_eq!(state.total_earned, 7);
    assert_eq!(state.recent_events[0].surface, "modal");
    assert_eq!(state.recent_events[0].note, "看广告奖励");
}

#[test]
fn credit_adds_to_the_balance() {
    let mut state = CreditsState::default();
    assert_eq!(state.apply_credit(25), 125);
    assert_eq!(state.apply_credit(-200), -75);
}

#[test]
fn legacy_balance_is_never_negative() {
    assert_eq!(legacy_credits_state(-5).balance, 0);
    assert_eq!(legacy_credits_state(42).balance, 42);
    assert_eq!(restore_credits_state(None, None).balance, INITIAL_BALANCE);
    assert_eq!(restore_credits_state(None, Some(-1)).balance, 0);
    let mut saved = CreditsState::default();
    saved.balance = 9;
    assert_eq!(restore_credits_state(Some(saved), Some(50)).balance, 9);
}

#[test]
fn summary_reports_balance_phase_and_stats() {
    let mut state = CreditsState::default();
    state.apply_ad_reward("waiting", REWARD_PER_AD, 5);
    let j = credits_summary(&state);
    assert_eq!(j.get("balance").unwrap().as_u64(), Some(110));
    assert_eq!(j.get("phase").unwrap().as_str(), Some("free"));
    assert_eq!(j.get("reward_per_ad").unwrap().as_u64(), Some(10));
    assert_eq!(j.get("cost_per_request").unwrap().as_u64(), Some(0));
    let stats = j.get("stats").unwrap();
    assert_eq!(stats.get("waiting_bar_rewards").unwrap().as_u64(), Some(1));
    let events = stats.get("recent_events").unwrap().as_array().unwrap();
    assert_eq!(events.len(), 1);
    assert_eq!(events[0].get("kind").unwrap().as_str(), Some("earn"));
    assert_eq!(events[0].get("at_ms").unwrap().as_u64(), Some(5));
    let help = j.get("help").unwrap();
    assert_eq!(
        help.get("earn").unwrap().as_str(),
        Some("看广告赚算力：等待栏广告满 5 秒或手动看广告，每次 +10 算力。")
    );
}

#[test]
fn reward_responses() {
    let state = CreditsState::default();
    let ok = ad_reward_response(&state);
    assert_eq!(ok.get("success").unwrap().as_bool(), Some(true));
    assert_eq!(ok.get("reward").unwrap().as_u64(), Some(10));
    assert!(ok.get("stats").unwrap().get("total_earned").is_some());
    let no = ad_reward_rejection();
    assert_eq!(no.get("success").unwrap().as_bool(), Some(false));
    assert_eq!(no.get("error").unwrap().as_str(), Some("Invalid or expired ad nonce"));
}

#[test]
fn ad_event_types_are_classified() {
    assert_eq!(credit_ad_event_kind(" Impression"), Some(CreditEventKind::Impression));
    assert_eq!(credit_ad_event_kind("CLICK"), Some(CreditEventKind::Click));
    assert_eq!(credit_ad_event_kind("view"), None);
}

#[test]
fn nonces_redeem_exactly_once() {
    let mut registry = NonceRegistry::new();
    let a = generate_ad_nonce(&mut registry, 1_700_000_000_123);
    let b = generate_ad_nonce(&mut registry, 1_700_000_000_123);
    assert_eq!(a, "fc-nonce-1700000000123-0");
    assert_eq!(b, "fc-nonce-1700000000123-1");
    assert!(verify_and_consume_nonce(&mut registry, &b));
    assert!(!verify_and_consume_nonce(&mut registry, &b));
    assert!(!verify_and_consume_nonce(&mut registry, "fc-nonce-0-0"));
    assert!(verify_and_consume_nonce(&mut registry, &a));
    assert!(registry.issued.is_empty());
}

#[test]
fn rewards_and_charges_keep_the_ledger_base() {
    let mut state = CreditsState::default();
    let base = |s: &CreditsState| s.balance - s.total_earned + s.total_spent;
    assert_eq!(base(&state), 100);
    state.apply_ad_reward("modal", 10, 1);
    state.apply_ad_reward("waiting", 10, 2);
    assert!(state.apply_deduction(15, 3));
    assert!(!state.apply_deduction(1000, 4));
    state.apply_ad_impression("modal", 5);
    assert_eq!(base(&state), 100);
    assert_eq!(state.balance, 105);
}

#[test]
fn successive_nonces_never_coincide() {
    let mut registry = NonceRegistry::new();
    registry.counter = usize::MAX;
    let a = generate_ad_nonce(&mut registry, 12);
    let b = generate_ad_nonce(&mut registry, 12);
    assert_eq!(a, format!("fc-nonce-12-{}", usize::MAX));
    assert_eq!(b, "fc-nonce-12-0");
    assert_ne!(a, b);
    // the clock reading and the count cannot trade digits
    let mut other = NonceRegistry::new();
    other.counter = 23;
    let c = generate_ad_nonce(&mut other, 1);
    other.counter = 3;
    let d = generate_ad_nonce(&mut other, 12);
    assert_eq!(c, "fc-nonce-1-23");
    assert_eq!(d, "fc-nonce-12-3");
    assert_ne!(c, d);
}

#[test]
fn a_text_that_is_no_nonce_is_refused() {
    let mut registry = NonceRegistry::new();
    let a = generate_ad_nonce(&mut registry, 5);
    assert!(!verify_and_consume_nonce(&mut registry, "hello"));
    assert!(!verify_and_consume_nonce(&mut registry, "fc-nonce-5"));
    assert!(!verify_and_consume_nonce(&mut registry, ""));
    assert!(verify_and_consume_nonce(&mut registry, &a));
}
