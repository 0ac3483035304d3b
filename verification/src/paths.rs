//! Where FreeCodex keeps its data, and the edits it makes to Codex's own
//! files so that Codex neither advertises model upgrades nor offers app updates.
//!
//! A location is a base (an environment override, the user's home, or the
//! working directory) followed by path components. The process environment
//! reaches the library as a `PathEnvironment` value.
use vstd::prelude::*;

use crate::json::{
    entries_of, entry, field, find_key, first_key_at, has_key, inserted, key_position,
    lemma_first_key_unique, lemma_lookup_after_insert, set_to_text,
    lookup, text_of,
    JsonEntry, JsonValue,
};
use crate::text::{chars_of, string_of};

verus! {

pub const FREECODEX_HOME_DIR: &'static str = ".freecodex";

pub const FREECODEX_APP_STATE_DIR: &'static str = ".freecodex-plus";

pub const LEGACY_APP_STATE_DIR: &'static str = ".codex-session-delete";

pub const SETTINGS_FILE: &'static str = "settings.json";

pub const LATEST_STATUS_FILE: &'static str = "latest-status.json";

pub const DIAGNOSTIC_LOG_FILE: &'static str = "codex-plus.log";

pub const MODELS_CACHE_FILE: &'static str = "models_cache.json";

pub const VERSION_FILE: &'static str = "version.json";

pub const GLOBAL_STATE_FILE: &'static str = ".codex-global-state.json";

pub const GLOBAL_STATE_BACKUP_FILE: &'static str = ".codex-global-state.json.bak";

pub const ATOM_STATE_KEY: &'static str = "electron-persisted-atom-state";

pub const HIDE_FIRST_THREAD_PROMOS_KEY: &'static str = "electron:onboarding-hide-first-new-thread-promos";

/// A path as the components that are joined, in order.
pub struct AppPath {
    pub parts: Vec<String>,
}

impl AppPath {
    pub open spec fn view_parts(self) -> Seq<Seq<char>> {
        self.parts@.map_values(|p: String| p@)
    }
}

/// What the library reads from the process environment: the `CODEX_HOME` and
/// `FREECODEX_APP_STATE` overrides, the user's home directory, and the
/// settings path that tests may set.
pub struct PathEnvironment {
    pub codex_home: Option<String>,
    pub app_state: Option<String>,
    pub home_dir: Option<String>,
    pub settings_path_override: Option<AppPath>,
}

fn owned(s: &str) -> (r: String)
    ensures
        r@ == s@,
{
    string_of(&chars_of(s))
}

fn copy_string(s: &String) -> (r: String)
    ensures
        r@ == s@,
{
    s.clone()
}

/// The path of an override, or of `dir` in the home directory, or of `dir`
/// in the working directory.
pub open spec fn dir_under(over: Option<String>, home: Option<String>, dir: Seq<char>) -> Seq<Seq<char>> {
    match over {
        Some(o) => seq![o@],
        None => match home {
            Some(h) => seq![h@, dir],
            None => seq![dir],
        },
    }
}

fn dir_path(over: &Option<String>, home: &Option<String>, dir: &str) -> (p: AppPath)
    ensures
        p.view_parts() == dir_under(*over, *home, dir@),
{
    let mut parts: Vec<String> = Vec::new();
    match over {
        Some(o) => {
            parts.push(copy_string(o));
        },
        None => match home {
            Some(h) => {
                parts.push(copy_string(h));
                parts.push(owned(dir));
            },
            None => {
                parts.push(owned(dir));
            },
        },
    }
    let p = AppPath { parts };
    assert(p.view_parts() =~= dir_under(*over, *home, dir@));
    p
}

fn joined(mut p: AppPath, name: &str) -> (r: AppPath)
    ensures
        r.view_parts() == p.view_parts().push(name@),
{
    let ghost before = p.view_parts();
    p.parts.push(owned(name));
    assert(p.view_parts() =~= before.push(name@));
    p
}

/// Canonical Codex data directory for FreeCodex (`CODEX_HOME`, else `~/.freecodex`).
pub fn resolve_codex_home_dir(env: &PathEnvironment) -> (p: AppPath)
    ensures
        p.view_parts() == dir_under(env.codex_home, env.home_dir, FREECODEX_HOME_DIR@),
{
    dir_path(&env.codex_home, &env.home_dir, FREECODEX_HOME_DIR)
}

/// FreeCodex's own state directory (`FREECODEX_APP_STATE`, else `~/.freecodex-plus`).
pub fn default_app_state_dir(env: &PathEnvironment) -> (p: AppPath)
    ensures
        p.view_parts() == dir_under(env.app_state, env.home_dir, FREECODEX_APP_STATE_DIR@),
{
    dir_path(&env.app_state, &env.home_dir, FREECODEX_APP_STATE_DIR)
}

/// The state directory of earlier releases (`~/.codex-session-delete`).
pub fn legacy_app_state_dir(env: &PathEnvironment) -> (p: AppPath)
    ensures
        p.view_parts() == dir_under(None, env.home_dir, LEGACY_APP_STATE_DIR@),
{
    dir_path(&None, &env.home_dir, LEGACY_APP_STATE_DIR)
}

fn copy_path(p: &AppPath) -> (r: AppPath)
    ensures
        r.view_parts() == p.view_parts(),
{
    let mut parts: Vec<String> = Vec::new();
    let n = p.parts.len();
    for i in 0..n
        invariant
            n == p.parts@.len(),
            parts@.len() == i,
            forall|k: int| 0 <= k < i ==> parts@[k]@ == p.parts@[k]@,
    {
        parts.push(copy_string(&p.parts[i]));
    }
    let r = AppPath { parts };
    assert(r.view_parts() =~= p.view_parts());
    r
}

/// The settings file: the path set for tests, else `settings.json` in the state directory.
pub fn default_settings_path(env: &PathEnvironment) -> (p: AppPath)
    ensures
        match env.settings_path_override {
            Some(o) => p.view_parts() == o.view_parts(),
            None => p.view_parts() == dir_under(env.app_state, env.home_dir, FREECODEX_APP_STATE_DIR@).push(SETTINGS_FILE@),
        },
{
    if let Some(o) = &env.settings_path_override {
        return copy_path(o);
    }
    joined(default_app_state_dir(env), SETTINGS_FILE)
}

pub fn default_latest_status_path(env: &PathEnvironment) -> (p: AppPath)
    ensures
        p.view_parts() == dir_under(env.app_state, env.home_dir, FREECODEX_APP_STATE_DIR@).push(LATEST_STATUS_FILE@),
{
    joined(default_app_state_dir(env), LATEST_STATUS_FILE)
}

pub fn default_diagnostic_log_path(env: &PathEnvironment) -> (p: AppPath)
    ensures
        p.view_parts() == dir_under(env.app_state, env.home_dir, FREECODEX_APP_STATE_DIR@).push(DIAGNOSTIC_LOG_FILE@),
{
    joined(default_app_state_dir(env), DIAGNOSTIC_LOG_FILE)
}

/// Sets (or clears) the settings path used by tests and returns the previous one.
pub fn set_settings_path_for_tests(env: &mut PathEnvironment, path: Option<AppPath>) -> (previous: Option<AppPath>)
    ensures
        previous == old(env).settings_path_override,
        final(env).settings_path_override == path,
        final(env).codex_home == old(env).codex_home,
        final(env).app_state == old(env).app_state,
        final(env).home_dir == old(env).home_dir,
{
    let previous = env.settings_path_override.take();
    env.settings_path_override = path;
    previous
}

/// The version file after the latest version is dismissed: `None` when the
/// document is not an object, has no textual `latest_version`, or already
/// dismisses it; else the document with `dismissed_version` set to it.
pub open spec fn version_dismissal(doc: JsonValue, r: Option<JsonValue>) -> bool {
    match text_of(field(doc, "latest_version"@)) {
        Some(latest) => if text_of(field(doc, "dismissed_version"@)) == Some(latest) {
            r is None
        } else {
            r matches Some(JsonValue::Object(e2)) && set_to_text(entries_of(doc), e2@, "dismissed_version"@, latest)
        },
        None => r is None,
    }
}

pub fn dismiss_latest_version(doc: JsonValue) -> (r: Option<JsonValue>)
    ensures
        version_dismissal(doc, r),
{
    let latest = match doc.get("latest_version") {
        Some(v) => match v.as_str() {
            Some(s) => owned(s),
            None => return None,
        },
        None => return None,
    };
    let dismissed_same = match doc.get("dismissed_version") {
        Some(v) => match v.as_str() {
            Some(s) => crate::text::equals_str(&chars_of(latest.as_str()), s),
            None => false,
        },
        None => false,
    };
    if dismissed_same {
        return None;
    }
    let mut doc = doc;
    doc.insert("dismissed_version", JsonValue::String(latest));
    Some(doc)
}

/// The global state after first-thread promotions are hidden: `None` when
/// the document or its atom state is not an object, or the promotions are
/// already hidden; else the atom state (created when missing) gets the
/// hiding flag set to `true`.
pub open spec fn promos_hidden(doc: JsonValue, r: Option<JsonValue>) -> bool {
    match doc {
        JsonValue::Object(e) => match lookup(e@, ATOM_STATE_KEY@) {
            None => r matches Some(JsonValue::Object(e2)) && e2@.len() == e@.len() + 1
                && e2@.take(e@.len() as int) == e@ && e2@.last().key@ == ATOM_STATE_KEY@
                && (e2@.last().value matches JsonValue::Object(a2) && a2@.len() == 1
                && a2@[0].key@ == HIDE_FIRST_THREAD_PROMOS_KEY@ && a2@[0].value == JsonValue::Bool(true)),
            Some(JsonValue::Object(a)) => if lookup(a@, HIDE_FIRST_THREAD_PROMOS_KEY@) == Some(
                JsonValue::Bool(true),
            ) {
                r is None
            } else {
                let i = key_position(e@, ATOM_STATE_KEY@);
                r matches Some(JsonValue::Object(e2)) && e2@.len() == e@.len() && (forall|j: int|
                    0 <= j < e@.len() && j != i ==> e2@[j] == e@[j]) && e2@[i].key == e@[i].key && (
                e2@[i].value matches JsonValue::Object(a2) && inserted(
                    a@,
                    a2@,
                    HIDE_FIRST_THREAD_PROMOS_KEY@,
                    JsonValue::Bool(true),
                ))
            },
            Some(_) => r is None,
        },
        _ => r is None,
    }
}

fn flag_is_true(v: Option<&JsonValue>) -> (b: bool)
    ensures
        b == (match v {
            Some(x) => *x == JsonValue::Bool(true),
            None => false,
        }),
{
    match v {
        Some(JsonValue::Bool(true)) => true,
        _ => false,
    }
}

pub fn hide_first_thread_promos(doc: JsonValue) -> (r: Option<JsonValue>)
    ensures
        promos_hidden(doc, r),
{
    let mut entries = match doc {
        JsonValue::Object(e) => e,
        _ => return None,
    };
    let ghost e0 = entries@;
    match find_key(&entries, ATOM_STATE_KEY) {
        None => {
            let mut atom: Vec<JsonEntry> = Vec::new();
            atom.push(entry(HIDE_FIRST_THREAD_PROMOS_KEY, JsonValue::Bool(true)));
            entries.push(entry(ATOM_STATE_KEY, JsonValue::Object(atom)));
            assert(entries@.take(e0.len() as int) =~= e0);
            Some(JsonValue::Object(entries))
        },
        Some(i) => {
            let hidden = match &entries[i].value {
                JsonValue::Object(a) => {
                    flag_is_true(match find_key(a, HIDE_FIRST_THREAD_PROMOS_KEY) {
                        Some(k) => Some(&a[k].value),
                        None => None,
                    })
                },
                _ => return None,
            };
            if hidden {
                return None;
            }
            let JsonEntry { key, value } = entries.remove(i);
            let mut atom = value;
            atom.insert(HIDE_FIRST_THREAD_PROMOS_KEY, JsonValue::Bool(true));
            entries.insert(i, JsonEntry { key, value: atom });
            Some(JsonValue::Object(entries))
        },
    }
}

/// The report of suppressing Codex's update prompt.
pub fn update_prompt_report(version_dismissed: bool, promos_were_hidden: bool) -> (j: JsonValue)
    ensures
        j matches JsonValue::Object(e) && e@.len() == 3 && e@[0].key@ == "status"@ && text_of(
            Some(e@[0].value),
        ) == Some("ok"@) && e@[1].key@ == "version_dismissed"@ && e@[1].value == JsonValue::Bool(
            version_dismissed,
        ) && e@[2].key@ == "promos_hidden"@ && e@[2].value == JsonValue::Bool(promos_were_hidden),
{
    let mut e: Vec<JsonEntry> = Vec::new();
    e.push(entry("status", JsonValue::String(owned("ok"))));
    e.push(entry("version_dismissed", JsonValue::Bool(version_dismissed)));
    e.push(entry("promos_hidden", JsonValue::Bool(promos_were_hidden)));
    JsonValue::Object(e)
}

/// A member that announces something: present and not `null`.
pub open spec fn announces(v: Option<JsonValue>) -> bool {
    v matches Some(x) && !(x is Null)
}

/// The entries with member `key` set to `null` when it announces something.
pub open spec fn nulled(e: Seq<JsonEntry>, key: Seq<char>) -> Seq<JsonEntry> {
    if announces(lookup(e, key)) {
        let i = key_position(e, key);
        e.update(i, JsonEntry { key: e[i].key, value: JsonValue::Null })
    } else {
        e
    }
}

/// A model entry of the cache with its promotion fields cleared.
pub open spec fn stripped_model(m: JsonValue, m2: JsonValue) -> bool {
    match m {
        JsonValue::Object(e) => m2 matches JsonValue::Object(e2) && e2@ == nulled(
            nulled(e@, "availability_nux"@),
            "upgrade"@,
        ),
        _ => m2 == m,
    }
}

/// Whether clearing the promotion fields of a model entry changes it.
pub open spec fn model_has_promotion(m: JsonValue) -> bool {
    match m {
        JsonValue::Object(e) => announces(lookup(e@, "availability_nux"@)) || announces(
            lookup(nulled(e@, "availability_nux"@), "upgrade"@),
        ),
        _ => false,
    }
}

/// The models of the cache document (none when `models` is missing or not an array).
pub open spec fn cached_models(doc: JsonValue) -> Option<Seq<JsonValue>> {
    match field(doc, "models"@) {
        Some(JsonValue::Array(items)) => Some(items@),
        _ => None,
    }
}

/// The models cache after model upgrade / availability announcements are
/// removed: `None` when nothing changes; else the document whose models all
/// have their announcement fields set to `null`.
pub open spec fn promotions_stripped(doc: JsonValue, r: Option<JsonValue>) -> bool {
    match cached_models(doc) {
        Some(items) => if exists|k: int| 0 <= k < items.len() && model_has_promotion(#[trigger] items[k]) {
            let e = entries_of(doc);
            let i = key_position(e, "models"@);
            r matches Some(JsonValue::Object(e2)) && e2@.len() == e.len() && (forall|j: int|
                0 <= j < e.len() && j != i ==> e2@[j] == e[j]) && e2@[i].key == e[i].key && (
            e2@[i].value matches JsonValue::Array(items2) && items2@.len() == items.len() && forall|
                k: int,
            | 0 <= k < items.len() ==> stripped_model(items[k], #[trigger] items2@[k]))
        } else {
            r is None
        },
        None => r is None,
    }
}

/// Sets member `key` to `null` when it announces something; returns whether it did.
pub fn null_model_promotion_field(obj: &mut Vec<JsonEntry>, key: &str) -> (changed: bool)
    ensures
        changed == announces(lookup(old(obj)@, key@)),
        final(obj)@ == nulled(old(obj)@, key@),
{
    match find_key(obj, key) {
        None => false,
        Some(i) => {
            let is_null = match &obj[i].value {
                JsonValue::Null => true,
                _ => false,
            };
            if is_null {
                false
            } else {
                let ghost before = obj@;
                let JsonEntry { key: k, value: _ } = obj.remove(i);
                obj.insert(i, JsonEntry { key: k, value: JsonValue::Null });
                assert(obj@ =~= before.update(
                    i as int,
                    JsonEntry { key: before[i as int].key, value: JsonValue::Null },
                ));
                true
            }
        },
    }
}

fn strip_model(m: JsonValue) -> (r: (JsonValue, bool))
    ensures
        stripped_model(m, r.0),
        r.1 == model_has_promotion(m),
{
    match m {
        JsonValue::Object(e) => {
            let mut e = e;
            let a = null_model_promotion_field(&mut e, "availability_nux");
            let b = null_model_promotion_field(&mut e, "upgrade");
            (JsonValue::Object(e), a || b)
        },
        other => (other, false),
    }
}

pub fn strip_model_promotion_fields(doc: JsonValue) -> (r: Option<JsonValue>)
    ensures
        promotions_stripped(doc, r),
{
    let ghost d = doc;
    let mut entries = match doc {
        JsonValue::Object(e) => e,
        _ => return None,
    };
    let i = match find_key(&entries, "models") {
        Some(i) => i,
        None => return None,
    };
    let is_array = match &entries[i].value {
        JsonValue::Array(_) => true,
        _ => false,
    };
    if !is_array {
        return None;
    }
    let JsonEntry { key, value } = entries.remove(i);
    let mut items = match value {
        JsonValue::Array(items) => items,
        _ => Vec::new(),
    };
    let ghost items0 = items@;
    let mut out: Vec<JsonValue> = Vec::new();
    let mut changed = false;
    let ghost mut k: int = 0;
    while items.len() > 0
        invariant
            0 <= k <= items0.len(),
            items@ == items0.skip(k),
            out@.len() == k,
            forall|j: int| 0 <= j < k ==> stripped_model(items0[j], #[trigger] out@[j]),
            changed == exists|j: int| 0 <= j < k && model_has_promotion(#[trigger] items0[j]),
        decreases items.len(),
    {
        let m = items.remove(0);
        assert(m == items0[k]);
        let (m2, c) = strip_model(m);
        out.push(m2);
        changed = changed || c;
        proof {
            k = k + 1;
            assert(items0.skip(k - 1).drop_first() == items0.skip(k));
        }
    }
    if !changed {
        return None;
    }
    entries.insert(i, JsonEntry { key, value: JsonValue::Array(out) });
    Some(JsonValue::Object(entries))
}

/// Clearing a member leaves it announcing nothing and keeps every other member.
pub proof fn lemma_nulled_lookup(e: Seq<JsonEntry>, key: Seq<char>, other: Seq<char>)
    ensures
        !announces(lookup(nulled(e, key), key)),
        other != key ==> lookup(nulled(e, key), other) == lookup(e, other),
{
    if announces(lookup(e, key)) {
        lemma_lookup_after_insert(e, nulled(e, key), key, JsonValue::Null, other);
    }
}

/// Once a model's announcement fields are cleared, clearing them again
/// changes nothing: stripping the models cache twice reports no change the
/// second time.
pub proof fn lemma_stripped_model_has_no_promotion(m: JsonValue, m2: JsonValue)
    requires
        stripped_model(m, m2),
    ensures
        !model_has_promotion(m2),
{
    if let JsonValue::Object(e) = m {
        let a = "availability_nux"@;
        let u = "upgrade"@;
        assert(a != u) by {
            reveal_strlit("availability_nux");
            reveal_strlit("upgrade");
            assert(a.len() != u.len());
        }
        let e1 = nulled(e@, a);
        let e2 = nulled(e1, u);
        lemma_nulled_lookup(e@, a, u);
        lemma_nulled_lookup(e1, u, a);
        assert(!announces(lookup(e2, a)));
        assert(nulled(e2, a) == e2);
        assert(!announces(lookup(e2, u)));
    }
}

/// Entries that differ only in the value at one position keep every key at
/// the same first position.
proof fn lemma_same_keys_lookup(e: Seq<JsonEntry>, e2: Seq<JsonEntry>, key: Seq<char>)
    requires
        e2.len() == e.len(),
        forall|j: int| 0 <= j < e.len() ==> #[trigger] e2[j].key == e[j].key,
    ensures
        has_key(e2, key) == has_key(e, key),
        has_key(e, key) ==> key_position(e2, key) == key_position(e, key),
{
    if has_key(e, key) {
        let i = key_position(e, key);
        assert(first_key_at(e2, key, i));
        lemma_first_key_unique(e2, key, i, key_position(e2, key));
    }
    if has_key(e2, key) {
        let i = key_position(e2, key);
        assert forall|j: int| 0 <= j < i implies e[j].key@ != key by {
            assert(e2[j].key == e[j].key);
        }
        assert(e2[i].key == e[i].key);
        assert(first_key_at(e, key, i));
    }
}

/// Dismissing the latest version twice changes nothing the second time.
pub proof fn lemma_dismissal_is_idempotent(doc: JsonValue, d2: JsonValue)
    requires
        version_dismissal(doc, Some(d2)),
    ensures
        version_dismissal(d2, None),
{
    let latest = text_of(field(doc, "latest_version"@)).unwrap();
    let e2 = entries_of(d2);
    let s = choose|s: String| s@ == latest && inserted(entries_of(doc), e2, "dismissed_version"@, JsonValue::String(s));
    assert("latest_version"@ != "dismissed_version"@) by {
        reveal_strlit("latest_version");
        reveal_strlit("dismissed_version");
        assert("latest_version"@.len() != "dismissed_version"@.len());
    }
    lemma_lookup_after_insert(entries_of(doc), e2, "dismissed_version"@, JsonValue::String(s), "latest_version"@);
}

/// Hiding the first-thread promotions twice changes nothing the second time.
pub proof fn lemma_promos_hiding_is_idempotent(doc: JsonValue, d2: JsonValue)
    requires
        promos_hidden(doc, Some(d2)),
    ensures
        promos_hidden(d2, None),
{
    let e = entries_of(doc);
    let e2 = entries_of(d2);
    match lookup(e, ATOM_STATE_KEY@) {
        None => {
            let n = e.len() as int;
            assert forall|j: int| 0 <= j < n implies e2[j].key@ != ATOM_STATE_KEY@ by {
                assert(e2.take(n)[j] == e2[j]);
                if e2[j].key@ == ATOM_STATE_KEY@ {
                    crate::json::lemma_key_has_first(e, ATOM_STATE_KEY@, j);
                }
            }
            assert(first_key_at(e2, ATOM_STATE_KEY@, n));
            lemma_first_key_unique(e2, ATOM_STATE_KEY@, n, key_position(e2, ATOM_STATE_KEY@));
            let a2 = entries_of(e2[n].value);
            assert(first_key_at(a2, HIDE_FIRST_THREAD_PROMOS_KEY@, 0));
            lemma_first_key_unique(a2, HIDE_FIRST_THREAD_PROMOS_KEY@, 0, key_position(a2, HIDE_FIRST_THREAD_PROMOS_KEY@));
        },
        Some(atom) => {
            let i = key_position(e, ATOM_STATE_KEY@);
            lemma_same_keys_lookup(e, e2, ATOM_STATE_KEY@);
            let a = entries_of(atom);
            let a2 = entries_of(e2[i].value);
            lemma_lookup_after_insert(a, a2, HIDE_FIRST_THREAD_PROMOS_KEY@, JsonValue::Bool(true), HIDE_FIRST_THREAD_PROMOS_KEY@);
        },
    }
}

/// Stripping the models cache twice reports no change the second time.
pub proof fn lemma_stripping_is_idempotent(doc: JsonValue, d2: JsonValue)
    requires
        promotions_stripped(doc, Some(d2)),
    ensures
        promotions_stripped(d2, None),
{
    let e = entries_of(doc);
    let e2 = entries_of(d2);
    let i = key_position(e, "models"@);
    lemma_same_keys_lookup(e, e2, "models"@);
    let items = cached_models(doc).unwrap();
    let items2 = cached_models(d2).unwrap();
    assert forall|k: int| 0 <= k < items2.len() implies !model_has_promotion(#[trigger] items2[k]) by {
        lemma_stripped_model_has_no_promotion(items[k], items2[k]);
    }
}

} // verus!
