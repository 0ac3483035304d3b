//! The free model pool: which upstream endpoints serve which tier, how a
//! request is planned, how the pool is shuffled, when a provider failure
//! fails over, and how long to wait between attempts.
//!
//! Users do not choose models: all traffic defaults to the free pool.
//! `ModelTier::Premium` and `PREMIUM_MODEL_PREFIX` are reserved for future
//! credit-redeemed advanced models.
use vstd::prelude::*;

use crate::json::{
    entries_of, entry, field, json_str, lemma_lookup_after_insert, text_of, JsonEntry, JsonNumber,
    JsonValue,
};
use crate::keys::{provider_key, usable_key, ProviderKeys};
use crate::text::{
    chars_of, contains, contains_str, equals_str, lower, lower_chars, push_all, starts_with,
    starts_with_str, string_of, trim, trim_chars,
};

verus! {

/// Maximum upstream attempts before surfacing the last provider error.
pub const MAX_ROUTE_ATTEMPTS: u32 = 1000;

pub const DEFAULT_MODEL_ID: &'static str = "freecodex";

/// Canonical Codex `model_provider` id for FreeCodex sessions.
pub const DEFAULT_PROVIDER_ID: &'static str = "freecodex";

/// Reserved prefix for future credit-redeemed premium models.
pub const PREMIUM_MODEL_PREFIX: &'static str = "freecodex-premium-";

pub const NO_PROVIDERS_ERROR: &'static str = "FreeCodex model pool is temporarily unavailable.";

#[derive(Debug, Clone, Copy, PartialEq, Eq, Structural)]
pub enum ModelTier {
    /// Default free pool (fast / daily).
    Daily,
    /// Heavier free pool (reasoning-class endpoints).
    Reasoning,
    /// Reserved for future credit-redeemed advanced routing.
    Premium,
}

#[derive(Debug, Clone, Copy)]
pub struct FreeModelEndpoint {
    pub provider: &'static str,
    pub base_url: &'static str,
    pub model: &'static str,
    pub tier: ModelTier,
}

#[derive(Debug, Clone, Copy)]
pub struct FreeCodexRoutingPlan {
    pub tier: ModelTier,
    /// Credits charged per request. Zero while the product is fully free.
    pub required_credits: i64,
    pub inject_downgrade_warning: bool,
}

/// Why routing a request could not produce an upstream response.
#[derive(Debug)]
pub enum RouteError {
    /// No endpoint of the requested tier has a usable key.
    PoolUnavailable,
    /// Every attempt failed; the message names the last provider error.
    AllProvidersFailed(String),
}

pub open spec fn ep(provider: &'static str, base_url: &'static str, model: &'static str, tier: ModelTier) -> FreeModelEndpoint {
    FreeModelEndpoint { provider, base_url, model, tier }
}

/// The whole free model pool, in its fixed order.
pub open spec fn endpoint_table() -> Seq<FreeModelEndpoint> {
    seq![
        ep("opencode", "https://opencode.ai/zen/v1", "deepseek-v4-flash-free", ModelTier::Daily),
        ep("opencode", "https://opencode.ai/zen/v1", "mimo-v2.5-free", ModelTier::Daily),
        ep("opencode", "https://opencode.ai/zen/v1", "north-mini-code-free", ModelTier::Daily),
        ep("opencode", "https://opencode.ai/zen/v1", "big-pickle", ModelTier::Daily),
        ep("opencode", "https://opencode.ai/zen/v1", "nemotron-3-ultra-free", ModelTier::Reasoning),
        ep("openrouter", "https://openrouter.ai/api/v1", "cohere/north-mini-code:free", ModelTier::Daily),
        ep("openrouter", "https://openrouter.ai/api/v1", "nex-agi/nex-n2-pro:free", ModelTier::Reasoning),
        ep("openrouter", "https://openrouter.ai/api/v1", "nvidia/nemotron-3-ultra-550b-a55b:free", ModelTier::Reasoning),
        ep("nvidia", "https://integrate.api.nvidia.com/v1", "nvidia/nemotron-3-nano-30b-a3b", ModelTier::Daily),
        ep("nvidia", "https://integrate.api.nvidia.com/v1", "deepseek-ai/deepseek-v4-flash", ModelTier::Daily),
        ep("nvidia", "https://integrate.api.nvidia.com/v1", "meta/llama-3.3-70b-instruct", ModelTier::Reasoning),
        ep("nvidia", "https://integrate.api.nvidia.com/v1", "nvidia/nemotron-3-ultra-550b-a55b", ModelTier::Reasoning),
    ]
}

/// The whole free model pool.
pub fn all_endpoints() -> (v: Vec<FreeModelEndpoint>)
    ensures
        v@ == endpoint_table(),
{
    let opencode = "https://opencode.ai/zen/v1";
    let openrouter = "https://openrouter.ai/api/v1";
    let nvidia = "https://integrate.api.nvidia.com/v1";
    let v = vec![
        FreeModelEndpoint { provider: "opencode", base_url: opencode, model: "deepseek-v4-flash-free", tier: ModelTier::Daily },
        FreeModelEndpoint { provider: "opencode", base_url: opencode, model: "mimo-v2.5-free", tier: ModelTier::Daily },
        FreeModelEndpoint { provider: "opencode", base_url: opencode, model: "north-mini-code-free", tier: ModelTier::Daily },
        FreeModelEndpoint { provider: "opencode", base_url: opencode, model: "big-pickle", tier: ModelTier::Daily },
        FreeModelEndpoint { provider: "opencode", base_url: opencode, model: "nemotron-3-ultra-free", tier: ModelTier::Reasoning },
        FreeModelEndpoint { provider: "openrouter", base_url: openrouter, model: "cohere/north-mini-code:free", tier: ModelTier::Daily },
        FreeModelEndpoint { provider: "openrouter", base_url: openrouter, model: "nex-agi/nex-n2-pro:free", tier: ModelTier::Reasoning },
        FreeModelEndpoint { provider: "openrouter", base_url: openrouter, model: "nvidia/nemotron-3-ultra-550b-a55b:free", tier: ModelTier::Reasoning },
        FreeModelEndpoint { provider: "nvidia", base_url: nvidia, model: "nvidia/nemotron-3-nano-30b-a3b", tier: ModelTier::Daily },
        FreeModelEndpoint { provider: "nvidia", base_url: nvidia, model: "deepseek-ai/deepseek-v4-flash", tier: ModelTier::Daily },
        FreeModelEndpoint { provider: "nvidia", base_url: nvidia, model: "meta/llama-3.3-70b-instruct", tier: ModelTier::Reasoning },
        FreeModelEndpoint { provider: "nvidia", base_url: nvidia, model: "nvidia/nemotron-3-ultra-550b-a55b", tier: ModelTier::Reasoning },
    ];
    assert(v@ =~= endpoint_table());
    v
}

/// Whether a model id names an upstream GPT model (such ids are replaced
/// internally and never shown to users).
pub open spec fn gpt_model(model: Seq<char>) -> bool {
    let m = lower(trim(model));
    if m.len() == 0 || m == DEFAULT_MODEL_ID@ || starts_with(m, "freecodex-"@) {
        false
    } else if contains(m, "gpt-oss"@) {
        false
    } else {
        ||| contains(m, "gpt-"@)
        ||| contains(m, "/gpt-"@)
        ||| starts_with(m, "gpt"@)
        ||| contains(m, "openai/gpt"@)
        ||| contains(m, "text-davinci"@)
        ||| contains(m, "chatgpt"@)
        ||| contains(m, "gpt-3.5-codex"@)
        ||| contains(m, "gpt-5"@)
        ||| contains(m, "gpt-4"@)
        ||| starts_with(m, "o1"@)
        ||| starts_with(m, "o3"@)
        ||| starts_with(m, "o4"@)
    }
}

/// Internal helper: upstream GPT ids are silently replaced, never user-facing.
pub fn is_gpt_model(model: &str) -> (b: bool)
    ensures
        b == gpt_model(model@),
{
    let m = lower_chars(&trim_chars(&chars_of(model)));
    if m.len() == 0 || equals_str(&m, DEFAULT_MODEL_ID) || starts_with_str(&m, "freecodex-") {
        return false;
    }
    if contains_str(&m, "gpt-oss") {
        return false;
    }
    contains_str(&m, "gpt-") || contains_str(&m, "/gpt-") || starts_with_str(&m, "gpt")
        || contains_str(&m, "openai/gpt") || contains_str(&m, "text-davinci") || contains_str(
        &m,
        "chatgpt",
    ) || contains_str(&m, "gpt-3.5-codex") || contains_str(&m, "gpt-5") || contains_str(
        &m,
        "gpt-4",
    ) || starts_with_str(&m, "o1") || starts_with_str(&m, "o3") || starts_with_str(&m, "o4")
}

/// The tier a requested model id is served from: premium-prefixed ids are
/// premium, `freecodex-reasoning` is the reasoning pool, anything else the daily pool.
pub open spec fn planned_tier(req_model: Seq<char>) -> ModelTier {
    if starts_with(req_model, PREMIUM_MODEL_PREFIX@) {
        ModelTier::Premium
    } else if req_model == "freecodex-reasoning"@ {
        ModelTier::Reasoning
    } else {
        ModelTier::Daily
    }
}

/// Plans how a request is served. Every request is currently free: the plan
/// never charges credits and never asks for the downgrade warning.
pub fn plan_freecodex_route(req_model: &str, _balance: i64) -> (r: Result<FreeCodexRoutingPlan, RouteError>)
    ensures
        r matches Ok(plan) && plan.tier == planned_tier(req_model@) && plan.required_credits == 0
            && !plan.inject_downgrade_warning,
{
    let m = chars_of(req_model);
    // Future: credit-redeemed premium models (extensibility hook).
    if starts_with_str(&m, PREMIUM_MODEL_PREFIX) {
        return Ok(
            FreeCodexRoutingPlan {
                tier: ModelTier::Premium,
                required_credits: 0,
                inject_downgrade_warning: false,
            },
        );
    }
    // All requests are free for now. Tier only affects which pool we draw from.
    let tier = if equals_str(&m, "freecodex-reasoning") {
        ModelTier::Reasoning
    } else {
        ModelTier::Daily
    };
    Ok(FreeCodexRoutingPlan { tier, required_credits: 0, inject_downgrade_warning: false })
}

/// Users do not choose models: only an id with the reserved premium prefix
/// leaves the free pools, only the exact id `freecodex-reasoning` asks for the
/// reasoning pool, and every other id (the default `freecodex` among them) is
/// served from the daily pool.
pub proof fn lemma_requests_default_to_daily(req_model: Seq<char>)
    ensures
        planned_tier(req_model) == ModelTier::Premium <==> starts_with(req_model, "freecodex-premium-"@),
        planned_tier(req_model) == ModelTier::Reasoning <==> req_model == "freecodex-reasoning"@,
        !starts_with(req_model, "freecodex-premium-"@) && req_model != "freecodex-reasoning"@
            ==> planned_tier(req_model) == ModelTier::Daily,
        planned_tier("freecodex"@) == ModelTier::Daily,
{
    reveal_strlit("freecodex-premium-");
    reveal_strlit("freecodex-reasoning");
    reveal_strlit("freecodex");
    assert(PREMIUM_MODEL_PREFIX@ == "freecodex-premium-"@);
    assert(!starts_with("freecodex-reasoning"@, "freecodex-premium-"@)) by {
        assert("freecodex-reasoning"@.subrange(0, 18)[10] != "freecodex-premium-"@[10]);
    }
    assert(!starts_with("freecodex"@, "freecodex-premium-"@));
    assert("freecodex"@ != "freecodex-reasoning"@);
}

/// The pool a tier draws from: premium requests are served by the reasoning pool.
pub open spec fn routed_tier(tier: ModelTier) -> ModelTier {
    match tier {
        ModelTier::Premium => ModelTier::Reasoning,
        other => other,
    }
}

pub fn tier_for_routing(tier: ModelTier) -> (t: ModelTier)
    ensures
        t == routed_tier(tier),
{
    match tier {
        ModelTier::Premium => ModelTier::Reasoning,
        other => other,
    }
}

/// An endpoint may serve `tier`: it belongs to the tier's pool, is not a GPT
/// model, and its provider has a usable key.
pub open spec fn serves(keys: ProviderKeys, tier: ModelTier, e: FreeModelEndpoint) -> bool {
    &&& e.tier == routed_tier(tier)
    &&& !gpt_model(e.model@)
    &&& usable_key(keys, e.provider@) is Some
}

/// The endpoints of the pool that may serve `tier`, in pool order.
pub open spec fn serving_endpoints(keys: ProviderKeys, tier: ModelTier) -> Seq<FreeModelEndpoint> {
    endpoint_table().filter(|e: FreeModelEndpoint| serves(keys, tier, e))
}

/// Every endpoint offered for a tier belongs to that tier's pool, is not a
/// GPT model and has a usable key; and every such endpoint of the pool is offered.
pub proof fn lemma_available_endpoints_serve(keys: ProviderKeys, tier: ModelTier)
    ensures
        forall|i: int|
            0 <= i < serving_endpoints(keys, tier).len() ==> serves(
                keys,
                tier,
                #[trigger] serving_endpoints(keys, tier)[i],
            ),
        forall|e: FreeModelEndpoint|
            endpoint_table().contains(e) && serves(keys, tier, e) ==> serving_endpoints(
                keys,
                tier,
            ).contains(e),
{
    let pred = |e: FreeModelEndpoint| serves(keys, tier, e);
    endpoint_table().filter_lemma(pred);
    assert forall|e: FreeModelEndpoint|
        endpoint_table().contains(e) && serves(keys, tier, e) implies serving_endpoints(keys, tier).contains(e) by {
        endpoint_table().lemma_filter_contains_rev(pred, e);
    }
}

/// The endpoints that may serve `tier`, in pool order.
pub fn available_endpoints(tier: ModelTier, keys: &ProviderKeys) -> (v: Vec<FreeModelEndpoint>)
    ensures
        v@ == serving_endpoints(*keys, tier),
{
    let t = tier_for_routing(tier);
    let all = all_endpoints();
    let ghost pred = |e: FreeModelEndpoint| serves(*keys, tier, e);
    let mut v: Vec<FreeModelEndpoint> = Vec::new();
    let n = all.len();
    for i in 0..n
        invariant
            n == all.len(),
            all@ == endpoint_table(),
            t == routed_tier(tier),
            pred == (|e: FreeModelEndpoint| serves(*keys, tier, e)),
            v@ == all@.take(i as int).filter(pred),
    {
        let e = all[i];
        reveal_with_fuel(Seq::<_>::filter, 1);
        assert(all@.take(i + 1).drop_last() == all@.take(i as int));
        if e.tier == t && !is_gpt_model(e.model) && provider_key(keys, e.provider).is_some() {
            v.push(e);
        }
    }
    assert(all@.take(n as int) == all@);
    v
}

/// The seed of one shuffle: the route counter mixed with the clock (nanoseconds).
pub open spec fn shuffle_seed(route_counter: u64, clock_nanos: u128) -> u64 {
    route_counter ^ (clock_nanos as u64)
}

/// The position that position `i` is swapped with in a shuffle with `seed`.
pub open spec fn swap_target(seed: u64, i: int) -> int {
    let mixed = vstd::wrapping::u64_specs::wrapping_add(
        vstd::wrapping::u64_specs::wrapping_mul(seed, 6364136223846793005u64),
        i as u64,
    );
    ((mixed as usize) as int) % (i + 1)
}

pub open spec fn swap<A>(s: Seq<A>, i: int, j: int) -> Seq<A> {
    s.update(i, s[j]).update(j, s[i])
}

/// Fisher-Yates from position `i` down to position 1.
pub open spec fn shuffle_down<A>(s: Seq<A>, seed: u64, i: int) -> Seq<A>
    decreases i,
{
    if i <= 0 {
        s
    } else {
        shuffle_down(swap(s, i, swap_target(seed, i)), seed, i - 1)
    }
}

/// The order in which a shuffle with `seed` puts `s`.
pub open spec fn shuffled<A>(s: Seq<A>, seed: u64) -> Seq<A> {
    if s.len() <= 1 {
        s
    } else {
        shuffle_down(s, seed, s.len() - 1)
    }
}

/// Swapping two positions keeps the same items.
pub proof fn lemma_swap_keeps_items<A>(s: Seq<A>, i: int, j: int)
    requires
        0 <= i < s.len(),
        0 <= j < s.len(),
    ensures
        swap(s, i, j).len() == s.len(),
        swap(s, i, j).to_multiset() == s.to_multiset(),
{
    broadcast use vstd::seq_lib::to_multiset_update;
    broadcast use vstd::seq_lib::group_to_multiset_ensures;
    broadcast use vstd::multiset::group_multiset_axioms;

    let m = s.to_multiset();
    let s1 = s.update(i, s[j]);
    assert(s1.len() == s.len());
    let m1 = s1.to_multiset();
    assert(m1 == m.insert(s[j]).remove(s[i]));
    let s2 = s1.update(j, s[i]);
    let m2 = s2.to_multiset();
    assert(m2 == m1.insert(s[i]).remove(s1[j]));
    assert(s.contains(s[i]));
    assert(m.count(s[i]) > 0);
    if i == j {
        assert(s1[j] == s[i]);
    } else {
        assert(s1[j] == s[j]);
    }
    assert forall|x: A| m2.count(x) == m.count(x) by {
    }
    assert(m2 =~= m);
}

pub proof fn lemma_shuffle_down_keeps_items<A>(s: Seq<A>, seed: u64, i: int)
    requires
        i < s.len(),
    ensures
        shuffle_down(s, seed, i).len() == s.len(),
        shuffle_down(s, seed, i).to_multiset() == s.to_multiset(),
    decreases i,
{
    if i > 0 {
        let j = swap_target(seed, i);
        lemma_swap_keeps_items(s, i, j);
        lemma_shuffle_down_keeps_items(swap(s, i, j), seed, i - 1);
    }
}

/// A shuffle reorders its items and keeps every one of them.
pub proof fn lemma_shuffle_keeps_items<A>(s: Seq<A>, seed: u64)
    ensures
        shuffled(s, seed).len() == s.len(),
        shuffled(s, seed).to_multiset() == s.to_multiset(),
{
    if s.len() > 1 {
        lemma_shuffle_down_keeps_items(s, seed, s.len() - 1);
    }
}

proof fn lemma_shuffle_down_keeps_tail<A>(s: Seq<A>, seed: u64, i: int, k: int)
    requires
        0 <= i < k < s.len(),
    ensures
        shuffle_down(s, seed, i).len() == s.len(),
        shuffle_down(s, seed, i)[k] == s[k],
    decreases i,
{
    if i > 0 {
        let j = swap_target(seed, i);
        assert(0 <= j <= i);
        lemma_shuffle_down_keeps_tail(swap(s, i, j), seed, i - 1, k);
    }
}

/// Whatever the size of the pool (two items or more), the shuffle starts
/// Fisher-Yates at the last position: the item that ends up last is the one at
/// position `(seed * 6364136223846793005 + (n - 1)) mod n` (the product and
/// sum wrapping in 64 bits), and no later swap moves it.
pub proof fn lemma_shuffle_chooses_the_last_item<A>(s: Seq<A>, seed: u64)
    requires
        s.len() >= 2,
    ensures
        shuffled(s, seed).len() == s.len(),
        shuffled(s, seed)[s.len() - 1] == s[((vstd::wrapping::u64_specs::wrapping_add(
            vstd::wrapping::u64_specs::wrapping_mul(seed, 6364136223846793005u64),
            (s.len() - 1) as u64,
        ) as usize) as int) % (s.len() as int)],
{
    let n = s.len() as int;
    let j = swap_target(seed, n - 1);
    assert(0 <= j < n);
    let t = swap(s, n - 1, j);
    assert(t[n - 1] == s[j]);
    assert(shuffled(s, seed) == shuffle_down(s, seed, n - 1));
    assert(shuffle_down(s, seed, n - 1) == shuffle_down(t, seed, n - 2));
    lemma_shuffle_down_keeps_tail(t, seed, n - 2, n - 1);
}

proof fn lemma_shuffle_down_prefix<A>(s: Seq<A>, seed: u64, i: int, m: int)
    requires
        0 <= i < m <= s.len(),
    ensures
        shuffle_down(s, seed, i).take(m) == shuffle_down(s.take(m), seed, i),
    decreases i,
{
    if i > 0 {
        let j = swap_target(seed, i);
        assert(0 <= j <= i);
        assert(swap(s, i, j).take(m) == swap(s.take(m), i, j));
        lemma_shuffle_down_prefix(swap(s, i, j), seed, i - 1, m);
    }
}

/// The shuffle is Fisher-Yates for every pool size: a pool of at most one
/// item stays as it is; a larger pool of `n` items first swaps its last
/// position with position `(seed * 6364136223846793005 + (n - 1)) mod n`
/// (wrapping in 64 bits), keeps the item that lands last, and shuffles the
/// other `n - 1` items the same way with the same seed.
pub proof fn lemma_shuffle_is_fisher_yates<A>(s: Seq<A>, seed: u64)
    ensures
        s.len() <= 1 ==> shuffled(s, seed) == s,
        s.len() >= 2 ==> ({
            let n = s.len() as int;
            let j = ((vstd::wrapping::u64_specs::wrapping_add(
                vstd::wrapping::u64_specs::wrapping_mul(seed, 6364136223846793005u64),
                (n - 1) as u64,
            ) as usize) as int) % n;
            let t = s.update(n - 1, s[j]).update(j, s[n - 1]);
            shuffled(s, seed) == shuffled(t.take(n - 1), seed).push(s[j])
        }),
{
    if s.len() >= 2 {
        let n = s.len() as int;
        let j = swap_target(seed, n - 1);
        let t = swap(s, n - 1, j);
        lemma_shuffle_chooses_the_last_item(s, seed);
        assert(shuffled(s, seed) == shuffle_down(t, seed, n - 2));
        lemma_shuffle_down_prefix(t, seed, n - 2, n - 1);
        let r = shuffle_down(t, seed, n - 2);
        lemma_shuffle_down_keeps_tail(t, seed, n - 2, n - 1);
        assert(r == r.take(n - 1).push(r[n - 1]));
        assert(t.take(n - 1).len() == n - 1);
    }
}

/// Puts the endpoints in a pseudo-random order (Fisher-Yates driven by a linear
/// congruential step); `route_counter` and `clock_nanos` make up the seed.
pub fn shuffle_endpoints(endpoints: Vec<FreeModelEndpoint>, route_counter: u64, clock_nanos: u128) -> (r: Vec<FreeModelEndpoint>)
    ensures
        r@ == shuffled(endpoints@, shuffle_seed(route_counter, clock_nanos)),
        r@.to_multiset() == endpoints@.to_multiset(),
{
    let ghost seed0 = shuffle_seed(route_counter, clock_nanos);
    proof {
        lemma_shuffle_keeps_items(endpoints@, seed0);
    }
    let mut endpoints = endpoints;
    let n = endpoints.len();
    if n <= 1 {
        return endpoints;
    }
    let seed: u64 = route_counter ^ (clock_nanos as u64);
    let ghost orig = endpoints@;
    let mut i: usize = n - 1;
    while i >= 1
        invariant
            n == endpoints.len(),
            n == orig.len(),
            n > 1,
            i < n,
            seed == seed0,
            shuffle_down(endpoints@, seed, i as int) == shuffled(orig, seed0),
        decreases i,
    {
        let mixed = seed.wrapping_mul(6364136223846793005u64).wrapping_add(i as u64);
        let j = (mixed as usize) % (i + 1);
        assert(j as int == swap_target(seed, i as int));
        let a = endpoints[i];
        let b = endpoints[j];
        endpoints.set(i, b);
        endpoints.set(j, a);
        i = i - 1;
    }
    endpoints
}

/// Upstream statuses after which the next endpoint of the pool is tried.
pub open spec fn failover_status(status: u16) -> bool {
    ||| status == 400
    ||| status == 401
    ||| status == 403
    ||| status == 404
    ||| status == 408
    ||| status == 409
    ||| status == 422
    ||| status == 423
    ||| status == 429
    ||| status == 500
    ||| status == 502
    ||| status == 503
    ||| status == 504
    ||| status == 520
    ||| status == 529
}

pub fn should_failover_status(status: u16) -> (b: bool)
    ensures
        b == failover_status(status),
{
    status == 400 || status == 401 || status == 403 || status == 404 || status == 408 || status
        == 409 || status == 422 || status == 423 || status == 429 || status == 500 || status == 502
        || status == 503 || status == 504 || status == 520 || status == 529
}

/// The wait before attempt `attempt + 1`, in milliseconds: 250 ms growing by
/// 75 ms per attempt, capped at 6000 ms, plus a jitter of up to 255 ms taken
/// from the route counter.
pub open spec fn retry_delay_ms(attempt: u32, route_counter: u64) -> int {
    let growth: int = if attempt >= 1 { attempt - 1 } else { 0 };
    let base: int = if 250 + 75 * growth <= 6000 { 250 + 75 * growth } else { 6000 };
    base + (route_counter % 256) as int
}

pub fn route_retry_delay(attempt: u32, route_counter: u64) -> (ms: u64)
    ensures
        ms == retry_delay_ms(attempt, route_counter),
        250 <= ms <= 6255,
{
    let growth: u64 = if attempt >= 1 { (attempt - 1) as u64 } else { 0 };
    let grown: u64 = 250 + growth * 75;
    let delay_ms: u64 = if grown <= 6000 { grown } else { 6000 };
    let jitter: u64 = route_counter & 255;
    assert(route_counter & 255 == route_counter % 256) by (bit_vector);
    delay_ms + jitter
}

/// The retry delay never shrinks from one attempt to a later one (for the
/// same jitter) and stays within 250 ms and 6255 ms.
pub proof fn lemma_retry_delay_grows_and_caps(a: u32, b: u32, route_counter: u64)
    requires
        a <= b,
    ensures
        retry_delay_ms(a, route_counter) <= retry_delay_ms(b, route_counter),
        250 <= retry_delay_ms(a, route_counter) <= 6255,
        1 <= a < b && retry_delay_ms(a, route_counter) - (route_counter % 256) < 6000 ==> retry_delay_ms(
            a,
            route_counter,
        ) < retry_delay_ms(b, route_counter),
{
}

/// `text` cut to at most `max` characters, with an ellipsis when it was cut.
pub open spec fn truncated(text: Seq<char>, max: nat) -> Seq<char> {
    if text.len() <= max {
        text
    } else {
        text.take(max as int) + "…"@
    }
}

pub fn truncate(text: &str, max: usize) -> (r: String)
    ensures
        r@ == truncated(text@, max as nat),
{
    let v = chars_of(text);
    if v.len() <= max {
        return string_of(&v);
    }
    let mut w: Vec<char> = Vec::new();
    for i in 0..max
        invariant
            max < v.len(),
            w@ == v@.take(i as int),
    {
        w.push(v[i]);
        assert(v@.take(i + 1) == v@.take(i as int).push(v@[i as int]));
    }
    let ell = chars_of("…");
    push_all(&mut w, &ell);
    string_of(&w)
}

/// The one model shown to clients.
pub fn single_model_list_json() -> (j: JsonValue)
    ensures
        j matches JsonValue::Object(e) && e@.len() == 2 && e@[0].key@ == "object"@ && text_of(
            Some(e@[0].value),
        ) == Some("list"@) && e@[1].key@ == "data"@ && (e@[1].value matches JsonValue::Array(
            data,
        ) && data@.len() == 1 && (data@[0] matches JsonValue::Object(m) && m@.len() == 5
            && m@[0].key@ == "id"@ && text_of(Some(m@[0].value)) == Some(DEFAULT_MODEL_ID@)
            && m@[1].key@ == "object"@ && text_of(Some(m@[1].value)) == Some("model"@)
            && m@[2].key@ == "created"@ && m@[2].value == JsonValue::Number(
            JsonNumber::PosInt(1686935002),
        ) && m@[3].key@ == "owned_by"@ && text_of(Some(m@[3].value)) == Some("system"@)
            && m@[4].key@ == "name"@ && text_of(Some(m@[4].value)) == Some("Assistant"@))),
{
    let mut model: Vec<JsonEntry> = Vec::new();
    model.push(entry("id", json_str(DEFAULT_MODEL_ID)));
    model.push(entry("object", json_str("model")));
    model.push(entry("created", JsonValue::Number(JsonNumber::PosInt(1686935002))));
    model.push(entry("owned_by", json_str("system")));
    model.push(entry("name", json_str("Assistant")));
    let mut data: Vec<JsonValue> = Vec::new();
    data.push(JsonValue::Object(model));
    let mut list: Vec<JsonEntry> = Vec::new();
    list.push(entry("object", json_str("list")));
    list.push(entry("data", JsonValue::Array(data)));
    JsonValue::Object(list)
}

/// The instruction put first in a conversation whose credits ran low.
pub open spec fn downgrade_warning() -> Seq<char> {
    "IMPORTANT: You MUST begin your response with exactly this text: '⚠️ **算力告警**：当前 Compute Credits 积分偏低，本次对话已自动降级切换至节流模式。'\n\n"@
}

/// `m` is the system message carrying the downgrade warning.
pub open spec fn warning_message(m: JsonValue) -> bool {
    m matches JsonValue::Object(e) && e@.len() == 2 && e@[0].key@ == "role"@ && text_of(
        Some(e@[0].value),
    ) == Some("system"@) && e@[1].key@ == "content"@ && text_of(Some(e@[1].value)) == Some(
        downgrade_warning(),
    )
}

/// Puts the downgrade warning first in a list of messages; any other value
/// is left as it is.
pub fn inject_downgrade_warning(messages: &mut JsonValue)
    ensures
        match *old(messages) {
            JsonValue::Array(before) => (*final(messages) matches JsonValue::Array(after)
                && after@.len() == before@.len() + 1 && warning_message(after@[0]) && after@.skip(1)
                == before@),
            _ => *final(messages) == *old(messages),
        },
{
    match messages {
        JsonValue::Array(items) => {
            let ghost before = items@;
            let mut m: Vec<JsonEntry> = Vec::new();
            m.push(entry("role", json_str("system")));
            m.push(
                entry(
                    "content",
                    json_str(
                        "IMPORTANT: You MUST begin your response with exactly this text: '⚠️ **算力告警**：当前 Compute Credits 积分偏低，本次对话已自动降级切换至节流模式。'\n\n",
                    ),
                ),
            );
            items.insert(0, JsonValue::Object(m));
            assert(items@.skip(1) =~= before);
        },
        _ => {},
    }
}

/// Whether the request asks for a streamed answer (`"stream": true`).
pub fn requested_stream(request: &JsonValue) -> (b: bool)
    ensures
        b == (field(*request, "stream"@) == Some(JsonValue::Bool(true))),
{
    match request.get("stream") {
        Some(v) => match v.as_bool() {
            Some(b) => b,
            None => false,
        },
        None => false,
    }
}

/// Whether an upstream answer is relayed as a stream: the request asked for
/// one, or the upstream sends an event stream.
pub fn is_event_stream(requested: bool, content_type: &str) -> (b: bool)
    ensures
        b == (requested || contains(content_type@, "text/event-stream"@)),
{
    requested || contains_str(&chars_of(content_type), "text/event-stream")
}

/// Points the request at `model` (`request["model"] = model`); a `null`
/// request becomes an object first.
pub fn set_request_model(request: &mut JsonValue, model: &str)
    requires
        *old(request) is Object || *old(request) is Null,
    ensures
        *final(request) is Object,
        text_of(field(*final(request), "model"@)) == Some(model@),
        forall|k: Seq<char>| k != "model"@ ==> field(*final(request), k) == field(*old(request), k),
{
    if let JsonValue::Null = request {
        *request = JsonValue::Object(Vec::new());
    }
    let ghost before = entries_of(*request);
    let value = json_str(model);
    let ghost v = value;
    request.insert("model", value);
    proof {
        assert forall|k: Seq<char>| k != "model"@ implies field(*request, k) == field(*old(request), k) by {
            lemma_lookup_after_insert(before, entries_of(*request), "model"@, v, k);
        }
        lemma_lookup_after_insert(before, entries_of(*request), "model"@, v, "model"@);
    }
}

} // verus!
