use codex_plus_core::ads::{
    ad_display_text, ad_fetch_response, cache_busted_ad_url, enrich_ad_for_client, is_valid_ad,
    normalize_ad_payload, pick_random_ad, AdListError, AdListFetch, AD_LIST_UNAVAILABLE,
    DEFAULT_AD_LIST_URLS,
};
use codex_plus_core::json::{JsonEntry, JsonNumber, JsonValue};

fn s(t: &str) -> JsonValue {
    JsonValue::String(t.to_string())
}

fn obj(pairs: Vec<(&str, JsonValue)>) -> JsonValue {
    JsonValue::Object(
        pairs.into_iter().map(|(k, v)| JsonEntry { key: k.to_string(), value: v }).collect(),
    )
}

fn text(v: &JsonValue) -> &str {
    v.as_str().unwrap()
}

#[test]
fn display_text_prefers_ad_text_then_title_and_description() {
    assert_eq!(ad_display_text(&obj(vec![("adText", s("  Hello  ")), ("text", s("no"))])), "Hello");
    assert_eq!(ad_display_text(&obj(vec![("text", s(" Plain "))])), "Plain");
    assert_eq!(
        ad_display_text(&obj(vec![("adText", s("   ")), ("title", s(" T ")), ("description", s(" D "))])),
        "T — D"
    );
    assert_eq!(ad_display_text(&obj(vec![("description", s("only d"))])), "only d");
    assert_eq!(ad_display_text(&obj(vec![("title", s("only t"))])), "only t");
    assert_eq!(ad_display_text(&JsonValue::Null), "");
    // a non-string adText hides the text field
    assert_eq!(ad_display_text(&obj(vec![("adText", JsonValue::Bool(true)), ("text", s("x"))])), "");
}

#[test]
fn validity_depends_on_the_ad_type() {
    assert!(is_valid_ad(&obj(vec![("type", s("text")), ("text", s("hi"))])));
    assert!(!is_valid_ad(&obj(vec![("type", s("text")), ("text", s("  "))])));
    let sponsor = obj(vec![
        ("type", s("sponsor")),
        ("title", s("T")),
        ("description", s("D")),
        ("url", s("https://x")),
    ]);
    assert!(is_valid_ad(&sponsor));
    assert!(!is_valid_ad(&obj(vec![("type", s("normal")), ("title", s("T")), ("description", s("D"))])));
    assert!(!is_valid_ad(&obj(vec![("type", s("banner")), ("text", s("hi"))])));
    assert!(!is_valid_ad(&obj(vec![("text", s("hi"))])));
}

#[test]
fn normalize_keeps_valid_ads_and_completes_text_ads() {
    let payload = obj(vec![
        ("version", JsonValue::Number(JsonNumber::PosInt(3))),
        (
            "ads",
            JsonValue::Array(vec![
                obj(vec![("type", s("text")), ("text", s("  Buy now  "))]),
                obj(vec![("type", s("text")), ("text", s(""))]),
                obj(vec![
                    ("type", s("normal")),
                    ("title", s("T")),
                    ("description", s("D")),
                    ("url", s("https://u")),
                ]),
                obj(vec![("type", s("text")), ("adText", s("x")), ("url", s("https://keep"))]),
            ]),
        ),
    ]);
    let n = normalize_ad_payload(payload);
    assert_eq!(n.get("version").unwrap().as_u64(), Some(3));
    let ads = n.get("ads").unwrap().as_array().unwrap();
    assert_eq!(ads.len(), 3);
    assert_eq!(text(ads[0].get("adText").unwrap()), "Buy now");
    assert_eq!(text(ads[0].get("url").unwrap()), "#");
    assert_eq!(text(ads[1].get("title").unwrap()), "T");
    assert!(ads[1].get("adText").is_none());
    assert_eq!(text(ads[2].get("url").unwrap()), "https://keep");
}

#[test]
fn normalize_defaults_version_and_tolerates_missing_ads() {
    let n = normalize_ad_payload(obj(vec![("version", s("2"))]));
    assert_eq!(n.get("version").unwrap().as_u64(), Some(1));
    assert_eq!(n.get("ads").unwrap().as_array().unwrap().len(), 0);
}

#[test]
fn enrich_and_fetch_response_carry_the_display_text() {
    let ad = obj(vec![("title", s("T")), ("description", s("D"))]);
    let e = enrich_ad_for_client(ad);
    assert_eq!(text(e.get("adText").unwrap()), "T — D");
    let r = ad_fetch_response("n-1".to_string(), obj(vec![("text", s(" hi "))]));
    assert_eq!(text(r.get("nonce").unwrap()), "n-1");
    assert_eq!(text(r.get("adText").unwrap()), "hi");
    assert_eq!(text(r.get("ad").unwrap().get("adText").unwrap()), "hi");
    let r = ad_fetch_response("n-2".to_string(), s("not an object"));
    assert_eq!(text(r.get("adText").unwrap()), "");
    assert_eq!(text(r.get("ad").unwrap()), "not an object");
}

#[test]
fn pick_uses_the_clock_modulo_the_list() {
    let payload = obj(vec![("ads", JsonValue::Array(vec![s("a"), s("b"), s("c")]))]);
    let picked = pick_random_ad(payload, 7).unwrap();
    assert_eq!(text(&picked), "b");
    assert!(pick_random_ad(obj(vec![("ads", JsonValue::Array(vec![]))]), 7).is_none());
    assert!(pick_random_ad(obj(vec![]), 7).is_none());
}

#[test]
fn cache_busting_appends_a_version_parameter() {
    assert_eq!(cache_busted_ad_url(DEFAULT_AD_LIST_URLS[0], 42), format!("{}?v=42", DEFAULT_AD_LIST_URLS[0]));
    assert_eq!(cache_busted_ad_url("https://x/a.json?y=1", 0), "https://x/a.json?y=1&v=0");
    assert_eq!(
        cache_busted_ad_url("u", 340282366920938463463374607431768211455),
        "u?v=340282366920938463463374607431768211455"
    );
}

fn same(a: &JsonValue, b: &JsonValue) -> bool {
    match (a, b) {
        (JsonValue::Null, JsonValue::Null) => true,
        (JsonValue::Bool(x), JsonValue::Bool(y)) => x == y,
        (JsonValue::Number(JsonNumber::PosInt(x)), JsonValue::Number(JsonNumber::PosInt(y))) => x == y,
        (JsonValue::Number(JsonNumber::NegInt(x)), JsonValue::Number(JsonNumber::NegInt(y))) => x == y,
        (JsonValue::Number(JsonNumber::Float(x)), JsonValue::Number(JsonNumber::Float(y))) => x == y,
        (JsonValue::String(x), JsonValue::String(y)) => x == y,
        (JsonValue::Array(xs), JsonValue::Array(ys)) => {
            xs.len() == ys.len() && xs.iter().zip(ys).all(|(x, y)| same(x, y))
        }
        (JsonValue::Object(xs), JsonValue::Object(ys)) => {
            xs.len() == ys.len()
                && xs.iter().zip(ys).all(|(x, y)| x.key == y.key && same(&x.value, &y.value))
        }
        _ => false,
    }
}

fn sample_payload() -> JsonValue {
    obj(vec![
        ("version", JsonValue::Number(JsonNumber::PosInt(7))),
        (
            "ads",
            JsonValue::Array(vec![
                obj(vec![("type", s("text")), ("text", s("  Buy now  "))]),
                obj(vec![("type", s("banner")), ("text", s("dropped"))]),
                obj(vec![("type", s("text")), ("adText", s(" x ")), ("url", s("https://keep"))]),
                obj(vec![
                    ("type", s("sponsor")),
                    ("title", s("T")),
                    ("description", s("D")),
                    ("url", s("https://u")),
                ]),
            ]),
        ),
    ])
}

#[test]
fn normalizing_a_normalized_list_changes_nothing() {
    let once = normalize_ad_payload(sample_payload());
    assert_eq!(once.get("ads").unwrap().as_array().unwrap().len(), 3);
    let twice = normalize_ad_payload(normalize_ad_payload(sample_payload()));
    assert!(same(&once, &twice));
    assert_eq!(text(twice.get("ads").unwrap().as_array().unwrap()[1].get("adText").unwrap()), "x");
}

#[test]
fn ad_list_search_takes_the_first_fetched_payload() {
    let mut search: AdListFetch<String> = AdListFetch::new();
    assert!(search.on_outcome(Err("timeout".to_string())).is_none());
    let list = search.on_outcome(Ok(sample_payload())).unwrap();
    assert!(same(&list, &normalize_ad_payload(sample_payload())));
    assert_eq!(search.last_error.as_deref(), Some("timeout"));
}

#[test]
fn ad_list_search_reports_the_last_error() {
    let mut search: AdListFetch<String> = AdListFetch::new();
    assert!(search.on_outcome(Err("first".to_string())).is_none());
    assert!(search.on_outcome(Err("second".to_string())).is_none());
    match search.finish() {
        AdListError::Failed(e) => assert_eq!(e, "second"),
        AdListError::Unavailable => panic!("the last error was lost"),
    }
}

#[test]
fn ad_list_search_without_urls_is_unavailable() {
    let search: AdListFetch<String> = AdListFetch::new();
    assert!(matches!(search.finish(), AdListError::Unavailable));
    assert_eq!(AD_LIST_UNAVAILABLE, "ad list unavailable");
}
