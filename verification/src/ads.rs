//! The advertisement list: which ads are valid, the text shown for an ad,
//! how a fetched list is normalized, and how an ad is chosen and handed to
//! the client.
use vstd::prelude::*;

use crate::json::{
    entries_of, entry, field, find_key, first_key_at, has_key, json_str, key_position,
    lemma_first_key_unique, lemma_lookup_after_insert, lookup, same_json, set_to_text, text_of,
    JsonEntry, JsonNumber, JsonValue,
};
use crate::text::{
    chars_of, contains, contains_str, decimal, lemma_trim_idempotent, push_all, push_decimal,
    push_str, string_of, trim, trim_chars,
};

verus! {

pub const DEFAULT_AD_LIST_URLS: [&'static str; 2] = [
    "https://raw.githubusercontent.com/BigPizzaV3/Ad-List/main/ads.json",
    "https://cdn.jsdelivr.net/gh/BigPizzaV3/Ad-List@main/ads.json",
];

/// The text field of an ad: `adText`, or `text` when `adText` is missing.
pub open spec fn ad_text(ad: JsonValue) -> Option<Seq<char>> {
    match field(ad, "adText"@) {
        Some(v) => text_of(Some(v)),
        None => text_of(field(ad, "text"@)),
    }
}

/// A string member that is present and not blank.
pub open spec fn filled(t: Option<Seq<char>>) -> bool {
    t matches Some(s) && trim(s).len() > 0
}

/// A text ad needs a non-blank text; a sponsor or normal ad needs a
/// non-blank title, description and url; any other ad is invalid.
pub open spec fn valid_ad(ad: JsonValue) -> bool {
    let kind = text_of(field(ad, "type"@));
    if kind == Some("text"@) {
        filled(ad_text(ad))
    } else if kind == Some("sponsor"@) || kind == Some("normal"@) {
        &&& filled(text_of(field(ad, "title"@)))
        &&& filled(text_of(field(ad, "description"@)))
        &&& filled(text_of(field(ad, "url"@)))
    } else {
        false
    }
}

/// The trimmed text of a string member, empty when it is missing.
pub open spec fn trimmed_member(ad: JsonValue, key: Seq<char>) -> Seq<char> {
    match text_of(field(ad, key)) {
        Some(s) => trim(s),
        None => Seq::empty(),
    }
}

/// The text shown for an ad: its trimmed text field when not blank, else
/// `"<title> — <description>"`, or whichever of the two is not blank.
pub open spec fn display_text(ad: JsonValue) -> Seq<char> {
    if filled(ad_text(ad)) {
        trim(ad_text(ad).unwrap())
    } else {
        let title = trimmed_member(ad, "title"@);
        let description = trimmed_member(ad, "description"@);
        if title.len() > 0 && description.len() > 0 {
            title + " — "@ + description
        } else if description.len() > 0 {
            description
        } else {
            title
        }
    }
}

fn ad_text_field(ad: &JsonValue) -> (r: Option<&str>)
    ensures
        match r {
            Some(s) => ad_text(*ad) == Some(s@),
            None => ad_text(*ad) is None,
        },
{
    match ad.get("adText") {
        Some(v) => v.as_str(),
        None => match ad.get("text") {
            Some(v) => v.as_str(),
            None => None,
        },
    }
}

/// The trimmed characters of an optional text, `None` when missing.
fn trimmed(t: Option<&str>) -> (r: Option<Vec<char>>)
    ensures
        match t {
            Some(s) => r matches Some(v) && v@ == trim(s@),
            None => r is None,
        },
{
    match t {
        Some(s) => Some(trim_chars(&chars_of(s))),
        None => None,
    }
}

fn member_str<'a>(ad: &'a JsonValue, key: &str) -> (r: Option<&'a str>)
    ensures
        match r {
            Some(s) => text_of(field(*ad, key@)) == Some(s@),
            None => text_of(field(*ad, key@)) is None,
        },
{
    match ad.get(key) {
        Some(v) => v.as_str(),
        None => None,
    }
}

fn is_filled(t: Option<&str>) -> (b: bool)
    ensures
        b == filled(
            match t {
                Some(s) => Some(s@),
                None => None,
            },
        ),
{
    match trimmed(t) {
        Some(v) => v.len() > 0,
        None => false,
    }
}

pub fn is_valid_ad(ad: &JsonValue) -> (b: bool)
    ensures
        b == valid_ad(*ad),
{
    let kind = match member_str(ad, "type") {
        Some(k) => chars_of(k),
        None => return false,
    };
    if crate::text::equals_str(&kind, "text") {
        is_filled(ad_text_field(ad))
    } else if crate::text::equals_str(&kind, "sponsor") || crate::text::equals_str(&kind, "normal") {
        is_filled(member_str(ad, "title")) && is_filled(member_str(ad, "description"))
            && is_filled(member_str(ad, "url"))
    } else {
        false
    }
}

pub fn ad_display_text(ad: &JsonValue) -> (s: String)
    ensures
        s@ == display_text(*ad),
{
    if let Some(t) = trimmed(ad_text_field(ad)) {
        if t.len() > 0 {
            return string_of(&t);
        }
    }
    let title = match trimmed(member_str(ad, "title")) {
        Some(v) => v,
        None => Vec::new(),
    };
    let description = match trimmed(member_str(ad, "description")) {
        Some(v) => v,
        None => Vec::new(),
    };
    if title.len() > 0 && description.len() > 0 {
        let mut r = title;
        push_str(&mut r, " — ");
        push_all(&mut r, &description);
        string_of(&r)
    } else if description.len() > 0 {
        string_of(&description)
    } else {
        string_of(&title)
    }
}

/// The ad as handed to the client: an object ad gets `adText` set to its
/// display text; any other value is unchanged.
pub open spec fn enriched(ad: JsonValue, r: JsonValue) -> bool {
    match ad {
        JsonValue::Object(e) => r matches JsonValue::Object(e2) && set_to_text(
            e@,
            e2@,
            "adText"@,
            display_text(ad),
        ),
        _ => r == ad,
    }
}

pub fn enrich_ad_for_client(ad: JsonValue) -> (r: JsonValue)
    ensures
        enriched(ad, r),
{
    let text = ad_display_text(&ad);
    let ghost t = text;
    let mut enriched_ad = ad;
    enriched_ad.insert("adText", JsonValue::String(text));
    proof {
        if ad is Object {
            assert(t@ == display_text(ad));
        }
    }
    enriched_ad
}

/// The answer to a client asking for an ad: `{nonce, ad, adText}` with the
/// enriched ad and its display text (empty when the ad is not an object).
pub fn ad_fetch_response(nonce: String, ad: JsonValue) -> (r: JsonValue)
    ensures
        r matches JsonValue::Object(e) && e@.len() == 3 && e@[0].key@ == "nonce"@ && e@[0].value
            == JsonValue::String(nonce) && e@[1].key@ == "ad"@ && enriched(ad, e@[1].value)
            && e@[2].key@ == "adText"@ && text_of(Some(e@[2].value)) == Some(
            if ad is Object {
                display_text(ad)
            } else {
                Seq::<char>::empty()
            },
        ),
{
    let is_object = ad.is_object();
    let text = if is_object {
        ad_display_text(&ad)
    } else {
        String::new()
    };
    let enriched_ad = enrich_ad_for_client(ad);
    let mut entries: Vec<JsonEntry> = Vec::new();
    entries.push(entry("nonce", JsonValue::String(nonce)));
    entries.push(entry("ad", enriched_ad));
    entries.push(entry("adText", JsonValue::String(text)));
    JsonValue::Object(entries)
}

/// A normalized text ad: `adText` set to the trimmed text, and `url` set to
/// `"#"` when the ad has none.
pub open spec fn normalized_text_ad(ad: JsonValue, r: JsonValue) -> bool {
    ad matches JsonValue::Object(e) && r matches JsonValue::Object(e2) && exists|
        m: Seq<JsonEntry>,
    |
        set_to_text(e@, m, "adText"@, trim(ad_text(ad).unwrap())) && if has_key(m, "url"@) {
            e2@ == m
        } else {
            set_to_text(m, e2@, "url"@, "#"@)
        }
}

/// How one valid ad appears in a normalized list.
pub open spec fn normalized_ad(ad: JsonValue, r: JsonValue) -> bool {
    if text_of(field(ad, "type"@)) == Some("text"@) {
        normalized_text_ad(ad, r)
    } else {
        r == ad
    }
}

/// `out` holds, in order, the normalized form of each valid ad of `ads`.
pub open spec fn normalized_ads(ads: Seq<JsonValue>, out: Seq<JsonValue>) -> bool {
    let valid = ads.filter(|a: JsonValue| valid_ad(a));
    &&& out.len() == valid.len()
    &&& forall|k: int| 0 <= k < out.len() ==> normalized_ad(valid[k], #[trigger] out[k])
}

/// The list version: the `version` member when it is an unsigned integer, else 1.
pub open spec fn payload_version(payload: JsonValue) -> u64 {
    match field(payload, "version"@) {
        Some(JsonValue::Number(JsonNumber::PosInt(n))) => n,
        _ => 1,
    }
}

/// The ads of a payload (none when `ads` is missing or not an array).
pub open spec fn payload_ads(payload: JsonValue) -> Seq<JsonValue> {
    match field(payload, "ads"@) {
        Some(JsonValue::Array(items)) => items@,
        _ => Seq::empty(),
    }
}

/// Removes member `key` from an object and returns its value.
fn take_member(v: JsonValue, key: &str) -> (r: Option<JsonValue>)
    ensures
        r == field(v, key@),
{
    match v {
        JsonValue::Object(entries) => {
            let mut entries = entries;
            match find_key(&entries, key) {
                Some(i) => {
                    let e = entries.remove(i);
                    Some(e.value)
                },
                None => None,
            }
        },
        _ => None,
    }
}

fn normalize_text_ad(ad: JsonValue) -> (r: JsonValue)
    requires
        valid_ad(ad),
        text_of(field(ad, "type"@)) == Some("text"@),
    ensures
        normalized_text_ad(ad, r),
{
    let text = match trimmed(ad_text_field(&ad)) {
        Some(t) => string_of(&t),
        None => String::new(),
    };
    let ghost ts = text;
    let mut normalized = ad;
    normalized.insert("adText", JsonValue::String(text));
    let ghost mid = entries_of(normalized);
    if !normalized.contains_key("url") {
        let u = json_str("#");
        normalized.insert("url", u);
        assert(set_to_text(mid, entries_of(normalized), "url"@, "#"@));
    }
    assert(set_to_text(entries_of(ad), mid, "adText"@, trim(ad_text(ad).unwrap())));
    normalized
}

/// `r` is the normalized form of `payload`: `{version, ads}` with the list
/// version and, in order, the normalized form of each valid ad.
pub open spec fn normalized_payload(payload: JsonValue, r: JsonValue) -> bool {
    r matches JsonValue::Object(e) && e@.len() == 2 && e@[0].key@ == "version"@ && e@[0].value
        == JsonValue::Number(JsonNumber::PosInt(payload_version(payload))) && e@[1].key@ == "ads"@
        && (e@[1].value matches JsonValue::Array(out) && normalized_ads(payload_ads(payload), out@))
}

/// Keeps the valid ads of a fetched list, in order, completes text ads, and
/// records the list version.
pub fn normalize_ad_payload(payload: JsonValue) -> (r: JsonValue)
    ensures
        normalized_payload(payload, r),
{
    let version = match payload.get("version") {
        Some(v) => match v.as_u64() {
            Some(n) => n,
            None => 1,
        },
        None => 1,
    };
    let ghost ads = payload_ads(payload);
    let mut rest: Vec<JsonValue> = match take_member(payload, "ads") {
        Some(JsonValue::Array(items)) => items,
        _ => Vec::new(),
    };
    assert(rest@ == ads);
    let ghost pred = |a: JsonValue| valid_ad(a);
    let mut out: Vec<JsonValue> = Vec::new();
    let ghost mut k: int = 0;
    while rest.len() > 0
        invariant
            0 <= k <= ads.len(),
            rest@ == ads.skip(k),
            pred == (|a: JsonValue| valid_ad(a)),
            out@.len() == ads.take(k).filter(pred).len(),
            forall|j: int| 0 <= j < out@.len() ==> normalized_ad(ads.take(k).filter(pred)[j], #[trigger] out@[j]),
        decreases rest.len(),
    {
        let ad = rest.remove(0);
        assert(ad == ads[k]);
        reveal_with_fuel(Seq::<_>::filter, 1);
        assert(ads.take(k + 1).drop_last() == ads.take(k));
        assert(ads.take(k + 1).last() == ad);
        if is_valid_ad(&ad) {
            let is_text = match member_str(&ad, "type") {
                Some(t) => crate::text::equals_str(&chars_of(t), "text"),
                None => false,
            };
            if is_text {
                out.push(normalize_text_ad(ad));
            } else {
                out.push(ad);
            }
        }
        proof {
            k = k + 1;
            assert(ads.skip(k - 1).drop_first() == ads.skip(k));
        }
    }
    assert(ads.take(k) == ads);
    let mut entries: Vec<JsonEntry> = Vec::new();
    entries.push(entry("version", JsonValue::Number(JsonNumber::PosInt(version))));
    entries.push(entry("ads", JsonValue::Array(out)));
    JsonValue::Object(entries)
}

/// The message for an ad list search that had no url to try.
pub const AD_LIST_UNAVAILABLE: &'static str = "ad list unavailable";

/// Why no ad list could be had: the error of the last url tried, or no url
/// to try at all.
pub enum AdListError<E> {
    Failed(E),
    Unavailable,
}

/// The search for an ad list over the candidate urls, tried in order: the
/// first payload that is fetched is the list, normalized; while every try
/// fails, the last error is kept.
pub struct AdListFetch<E> {
    pub last_error: Option<E>,
}

impl<E> AdListFetch<E> {
    pub fn new() -> (s: Self)
        ensures
            s.last_error is None,
    {
        AdListFetch { last_error: None }
    }

    /// The outcome of trying one url. A fetched payload ends the search and is
    /// returned normalized; an error becomes the last error and the search
    /// goes on with the next url.
    pub fn on_outcome(&mut self, outcome: Result<JsonValue, E>) -> (r: Option<JsonValue>)
        ensures
            match outcome {
                Ok(payload) => (r matches Some(list) && normalized_payload(payload, list))
                    && final(self).last_error == old(self).last_error,
                Err(e) => r is None && final(self).last_error == Some(e),
            },
    {
        match outcome {
            Ok(payload) => Some(normalize_ad_payload(payload)),
            Err(e) => {
                self.last_error = Some(e);
                None
            },
        }
    }

    /// Every url failed: the error of the last one, or `Unavailable` when
    /// there was no url to try.
    pub fn finish(self) -> (r: AdListError<E>)
        ensures
            match self.last_error {
                Some(e) => r == AdListError::Failed(e),
                None => r == AdListError::<E>::Unavailable,
            },
    {
        match self.last_error {
            Some(e) => AdListError::Failed(e),
            None => AdListError::Unavailable,
        }
    }
}

/// The ad that a clock reading picks from a payload: the reading, as a
/// machine-size integer, modulo the number of ads; none for an empty list.
pub open spec fn picked_ad(payload: JsonValue, clock_nanos: u128) -> Option<JsonValue> {
    let ads = payload_ads(payload);
    if ads.len() == 0 {
        None
    } else {
        Some(ads[((clock_nanos as usize) as int) % (ads.len() as int)])
    }
}

pub fn pick_random_ad(payload: JsonValue, clock_nanos: u128) -> (r: Option<JsonValue>)
    ensures
        r == picked_ad(payload, clock_nanos),
{
    let mut ads = match take_member(payload, "ads") {
        Some(JsonValue::Array(items)) => items,
        _ => return None,
    };
    if ads.len() == 0 {
        return None;
    }
    let idx = (clock_nanos as usize) % ads.len();
    Some(ads.swap_remove(idx))
}

/// The ad list url with a cache-busting `v=<version>` query parameter.
pub open spec fn cache_busted(url: Seq<char>, version: u128) -> Seq<char> {
    let separator = if contains(url, "?"@) { "&"@ } else { "?"@ };
    url + separator + "v="@ + decimal(version as nat)
}

pub fn cache_busted_ad_url(url: &str, version: u128) -> (r: String)
    ensures
        r@ == cache_busted(url@, version),
{
    let mut v = chars_of(url);
    if contains_str(&v, "?") {
        push_str(&mut v, "&");
    } else {
        push_str(&mut v, "?");
    }
    push_str(&mut v, "v=");
    push_decimal(&mut v, version);
    string_of(&v)
}

/// A valid ad in the form normalization gives it: a text ad holds a trimmed
/// `adText` and has a `url`.
spec fn settled_ad(ad: JsonValue) -> bool {
    &&& valid_ad(ad)
    &&& text_of(field(ad, "type"@)) == Some("text"@) ==> {
        &&& ad is Object
        &&& has_key(entries_of(ad), "url"@)
        &&& field(ad, "adText"@) matches Some(JsonValue::String(t)) && trim(t@) == t@
    }
}

proof fn lemma_key_literals()
    ensures
        "type"@ != "adText"@,
        "type"@ != "url"@,
        "adText"@ != "url"@,
        "version"@ != "ads"@,
{
    reveal_strlit("type");
    reveal_strlit("adText");
    reveal_strlit("url");
    reveal_strlit("version");
    reveal_strlit("ads");
    assert("type"@[0] != "adText"@[0]);
    assert("type"@[0] != "url"@[0]);
    assert("adText"@[0] != "url"@[0]);
    assert("version"@[0] != "ads"@[0]);
}

/// Normalizing a valid ad gives a settled one.
proof fn lemma_normalized_ad_is_settled(ad: JsonValue, r: JsonValue)
    requires
        valid_ad(ad),
        normalized_ad(ad, r),
    ensures
        settled_ad(r),
{
    if text_of(field(ad, "type"@)) == Some("text"@) {
        lemma_key_literals();
        let e = entries_of(ad);
        let e2 = entries_of(r);
        let t = trim(ad_text(ad).unwrap());
        let m = choose|m: Seq<JsonEntry>|
            set_to_text(e, m, "adText"@, t) && if has_key(m, "url"@) {
                e2 == m
            } else {
                set_to_text(m, e2, "url"@, "#"@)
            };
        let s = choose|s: String| s@ == t && crate::json::inserted(e, m, "adText"@, JsonValue::String(s));
        lemma_lookup_after_insert(e, m, "adText"@, JsonValue::String(s), "type"@);
        if !has_key(m, "url"@) {
            let u = choose|u: String| u@ == "#"@ && crate::json::inserted(m, e2, "url"@, JsonValue::String(u));
            lemma_lookup_after_insert(m, e2, "url"@, JsonValue::String(u), "type"@);
            lemma_lookup_after_insert(m, e2, "url"@, JsonValue::String(u), "adText"@);
        }
        assert(field(r, "type"@) == field(ad, "type"@));
        assert(field(r, "adText"@) == Some(JsonValue::String(s)));
        assert(lookup(e2, "url"@) is Some);
        lemma_trim_idempotent(ad_text(ad).unwrap());
    }
}

/// Normalizing a settled ad again gives the same ad.
proof fn lemma_settled_ad_renormalizes(ad: JsonValue, r: JsonValue)
    requires
        settled_ad(ad),
        normalized_ad(ad, r),
    ensures
        same_json(ad, r),
{
    if text_of(field(ad, "type"@)) == Some("text"@) {
        lemma_key_literals();
        let e = entries_of(ad);
        let e2 = entries_of(r);
        let t = trim(ad_text(ad).unwrap());
        let m = choose|m: Seq<JsonEntry>|
            set_to_text(e, m, "adText"@, t) && if has_key(m, "url"@) {
                e2 == m
            } else {
                set_to_text(m, e2, "url"@, "#"@)
            };
        let s = choose|s: String| s@ == t && crate::json::inserted(e, m, "adText"@, JsonValue::String(s));
        lemma_lookup_after_insert(e, m, "adText"@, JsonValue::String(s), "url"@);
        assert(has_key(m, "url"@));
        assert(e2 == m);
        let i = key_position(e, "adText"@);
        assert(has_key(e, "adText"@));
        assert forall|k: int| 0 <= k < e.len() implies e[k].key@ == e2[k].key@ && #[trigger] same_json(
            e[k].value,
            e2[k].value,
        ) by {
            if k == i {
                assert(e[k].value matches JsonValue::String(x) && x@ == t);
            } else {
                assert(e2[k] == e[k]);
            }
        }
        lemma_same_objects(ad->Object_0, r->Object_0);
    }
}

proof fn lemma_filter_keeps_all<A>(s: Seq<A>, pred: spec_fn(A) -> bool)
    requires
        forall|k: int| 0 <= k < s.len() ==> pred(#[trigger] s[k]),
    ensures
        s.filter(pred) == s,
    decreases s.len(),
{
    reveal_with_fuel(Seq::<_>::filter, 1);
    if s.len() > 0 {
        lemma_filter_keeps_all(s.drop_last(), pred);
        assert(s.drop_last().push(s.last()) == s);
    }
}

/// Two arrays whose items are pairwise the same document are the same document.
proof fn lemma_same_arrays(xs: Vec<JsonValue>, ys: Vec<JsonValue>)
    requires
        xs@.len() == ys@.len(),
        forall|k: int| 0 <= k < xs@.len() ==> #[trigger] same_json(xs@[k], ys@[k]),
    ensures
        same_json(JsonValue::Array(xs), JsonValue::Array(ys)),
{
    assert forall|k: int| 0 <= k < xs@.len() implies same_json(xs@[k], ys@[k]) by {}
}

/// Two objects whose entries pairwise have equal keys and the same value are
/// the same document.
proof fn lemma_same_objects(xs: Vec<JsonEntry>, ys: Vec<JsonEntry>)
    requires
        xs@.len() == ys@.len(),
        forall|k: int|
            0 <= k < xs@.len() ==> xs@[k].key@ == ys@[k].key@ && #[trigger] same_json(
                xs@[k].value,
                ys@[k].value,
            ),
    ensures
        same_json(JsonValue::Object(xs), JsonValue::Object(ys)),
{
    assert forall|k: int| 0 <= k < xs@.len() implies same_json(xs@[k].value, ys@[k].value) by {}
}

/// Normalizing a normalized ad list again gives the same document: the same
/// version, and the same ads in the same order.
pub proof fn lemma_normalize_twice(payload: JsonValue, once: JsonValue, twice: JsonValue)
    requires
        normalized_payload(payload, once),
        normalized_payload(once, twice),
    ensures
        same_json(once, twice),
{
    lemma_key_literals();
    let e1 = entries_of(once);
    let e2 = entries_of(twice);
    assert(first_key_at(e1, "version"@, 0));
    lemma_first_key_unique(e1, "version"@, 0, key_position(e1, "version"@));
    assert(first_key_at(e1, "ads"@, 1));
    lemma_first_key_unique(e1, "ads"@, 1, key_position(e1, "ads"@));
    assert(e2[0].value == e1[0].value);
    let out1 = payload_ads(once);
    assert(out1 == e1[1].value->Array_0@);
    let valid0 = payload_ads(payload).filter(|a: JsonValue| valid_ad(a));
    assert forall|k: int| 0 <= k < out1.len() implies #[trigger] settled_ad(out1[k]) by {
        payload_ads(payload).lemma_filter_pred(|a: JsonValue| valid_ad(a), k);
        lemma_normalized_ad_is_settled(valid0[k], out1[k]);
    }
    let pred = |a: JsonValue| valid_ad(a);
    assert forall|k: int| 0 <= k < out1.len() implies pred(#[trigger] out1[k]) by {
        assert(settled_ad(out1[k]));
    }
    lemma_filter_keeps_all(out1, pred);
    let out2 = e2[1].value->Array_0@;
    assert forall|k: int| 0 <= k < out1.len() implies #[trigger] same_json(out1[k], out2[k]) by {
        lemma_settled_ad_renormalizes(out1[k], out2[k]);
    }
    lemma_same_arrays(e1[1].value->Array_0, e2[1].value->Array_0);
    lemma_same_objects(once->Object_0, twice->Object_0);
}

/// Every ad of a list can be picked: a clock reading equal to a position
/// picks the ad at that position, the last one included; an empty list
/// gives no ad.
pub proof fn lemma_every_ad_can_be_picked(payload: JsonValue, k: usize)
    ensures
        payload_ads(payload).len() == 0 ==> picked_ad(payload, k as u128) is None,
        k < payload_ads(payload).len() ==> picked_ad(payload, k as u128) == Some(
            payload_ads(payload)[k as int],
        ),
{
    assert(((k as u128) as usize) == k) by (bit_vector);
    let ads = payload_ads(payload);
    if k < ads.len() {
        vstd::arithmetic::div_mod::lemma_small_mod(k as nat, ads.len());
    }
}

/// Every ad of a normalized list is complete: a sponsor or normal ad has a
/// non-blank title, description and url, a text ad has a non-blank `adText`
/// and a url, and no other kind of ad remains.
pub proof fn lemma_normalized_ads_are_complete(payload: JsonValue, r: JsonValue, k: int)
    requires
        normalized_payload(payload, r),
        0 <= k < payload_ads(r).len(),
    ensures
        ({
            let ad = payload_ads(r)[k];
            let kind = text_of(field(ad, "type"@));
            &&& kind == Some("text"@) || kind == Some("sponsor"@) || kind == Some("normal"@)
            &&& kind == Some("text"@) ==> (field(ad, "adText"@) matches Some(JsonValue::String(t))
                && trim(t@).len() > 0) && field(ad, "url"@) is Some
            &&& kind == Some("sponsor"@) || kind == Some("normal"@) ==> {
                &&& text_of(field(ad, "title"@)) matches Some(t) && trim(t).len() > 0
                &&& text_of(field(ad, "description"@)) matches Some(t) && trim(t).len() > 0
                &&& text_of(field(ad, "url"@)) matches Some(t) && trim(t).len() > 0
            }
        }),
{
    lemma_key_literals();
    let e = entries_of(r);
    assert(first_key_at(e, "ads"@, 1));
    lemma_first_key_unique(e, "ads"@, 1, key_position(e, "ads"@));
    let out = payload_ads(r);
    assert(out == e[1].value->Array_0@);
    let valid0 = payload_ads(payload).filter(|a: JsonValue| valid_ad(a));
    payload_ads(payload).lemma_filter_pred(|a: JsonValue| valid_ad(a), k);
    lemma_normalized_ad_is_settled(valid0[k], out[k]);
    let ad = out[k];
    reveal_strlit("text");
    reveal_strlit("sponsor");
    reveal_strlit("normal");
    assert("sponsor"@[0] != "text"@[0] && "normal"@[0] != "text"@[0]);
    if text_of(field(ad, "type"@)) == Some("text"@) {
        let t = field(ad, "adText"@)->0->String_0;
        assert(trim(t@) == t@);
        assert(lookup(entries_of(ad), "url"@) is Some);
    }
}

/// Which ads are valid: a text ad whose `adText` (or, when `adText` is
/// missing, whose `text`) is a non-blank string; a sponsor or normal ad whose
/// title, description and url are all non-blank strings; nothing else.
pub proof fn lemma_valid_ads(ad: JsonValue)
    ensures
        valid_ad(ad) <==> ({
            let kind = text_of(field(ad, "type"@));
            ||| kind == Some("text"@) && (text_of(field(ad, "adText"@)) matches Some(t) && trim(
                t,
            ).len() > 0)
            ||| kind == Some("text"@) && field(ad, "adText"@) is None && (text_of(
                field(ad, "text"@),
            ) matches Some(t) && trim(t).len() > 0)
            ||| (kind == Some("sponsor"@) || kind == Some("normal"@)) && (text_of(
                field(ad, "title"@),
            ) matches Some(t) && trim(t).len() > 0) && (text_of(field(ad, "description"@)) matches Some(
                t,
            ) && trim(t).len() > 0) && (text_of(field(ad, "url"@)) matches Some(t) && trim(t).len()
                > 0)
        }),
{
    reveal_strlit("text");
    reveal_strlit("sponsor");
    reveal_strlit("normal");
    assert("sponsor"@[0] != "text"@[0] && "normal"@[0] != "text"@[0]);
}

} // verus!
