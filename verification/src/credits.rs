//! Compute credits: the balance and statistics kept for the user, the
//! events that change them, the single-use nonces that guard ad rewards,
//! and the summaries handed to the client.
use vstd::prelude::*;

use crate::json::{entry, text_of, JsonEntry, JsonNumber, JsonValue};
use crate::text::{
    chars_of, decimal, equals_str, lemma_decimal_digits, lemma_decimal_injective, lower,
    lower_chars, push_decimal, push_str, string_of, trim, trim_chars,
};

verus! {

pub const REWARD_PER_AD: i64 = 10;

pub const COST_PER_REQUEST: i64 = 0;

pub const INITIAL_BALANCE: i64 = 100;

pub const RECENT_EVENT_LIMIT: usize = 30;

#[derive(Debug, Clone, Copy, PartialEq, Eq, Structural)]
pub enum CreditEventKind {
    Earn,
    Spend,
    Impression,
    Click,
}

#[derive(Debug, Clone, PartialEq, Eq)]
pub struct CreditEvent {
    pub kind: CreditEventKind,
    pub amount: i64,
    pub surface: String,
    pub note: String,
    pub at_ms: u64,
}

#[derive(Debug, Clone)]
pub struct CreditsState {
    pub balance: i64,
    pub total_earned: i64,
    pub total_spent: i64,
    pub ad_reward_count: u64,
    pub waiting_bar_rewards: u64,
    pub modal_rewards: u64,
    pub ad_impression_count: u64,
    pub ad_click_count: u64,
    pub request_count: u64,
    pub recent_events: Vec<CreditEvent>,
}

/// The state of a new user: the initial balance and no activity.
pub open spec fn fresh_state(s: CreditsState) -> bool {
    &&& s.balance == INITIAL_BALANCE
    &&& s.total_earned == 0
    &&& s.total_spent == 0
    &&& s.ad_reward_count == 0
    &&& s.waiting_bar_rewards == 0
    &&& s.modal_rewards == 0
    &&& s.ad_impression_count == 0
    &&& s.ad_click_count == 0
    &&& s.request_count == 0
    &&& s.recent_events@.len() == 0
}

impl Default for CreditsState {
    fn default() -> (s: Self)
        ensures
            fresh_state(s),
    {
        CreditsState {
            balance: INITIAL_BALANCE,
            total_earned: 0,
            total_spent: 0,
            ad_reward_count: 0,
            waiting_bar_rewards: 0,
            modal_rewards: 0,
            ad_impression_count: 0,
            ad_click_count: 0,
            request_count: 0,
            recent_events: Vec::new(),
        }
    }
}

/// The recent events after `event` happened: newest first, at most
/// `RECENT_EVENT_LIMIT` of them.
pub open spec fn events_after(events: Seq<CreditEvent>, event: CreditEvent) -> Seq<CreditEvent> {
    let all = seq![event] + events;
    if all.len() <= RECENT_EVENT_LIMIT {
        all
    } else {
        all.take(RECENT_EVENT_LIMIT as int)
    }
}

/// The surface an ad was shown on, by name: the waiting bar, the ad modal,
/// a request, or unknown.
pub open spec fn surface_name(surface: Seq<char>) -> Seq<char> {
    let s = lower(trim(surface));
    if s == "waiting"@ || s == "waiting_bar"@ || s == "waiting-bar"@ || s == "thinking"@ {
        "waiting_bar"@
    } else if s == "modal"@ || s == "manual"@ {
        "modal"@
    } else if s == "request"@ || s == "chat"@ {
        "request"@
    } else {
        "unknown"@
    }
}

pub fn normalize_surface(surface: &str) -> (r: &'static str)
    ensures
        r@ == surface_name(surface@),
{
    let s = lower_chars(&trim_chars(&chars_of(surface)));
    if equals_str(&s, "waiting") || equals_str(&s, "waiting_bar") || equals_str(&s, "waiting-bar")
        || equals_str(&s, "thinking") {
        "waiting_bar"
    } else if equals_str(&s, "modal") || equals_str(&s, "manual") {
        "modal"
    } else if equals_str(&s, "request") || equals_str(&s, "chat") {
        "request"
    } else {
        "unknown"
    }
}

/// What the balance would be without credits added outside ad rewards and
/// request charges: rewards and charges move the balance and their totals
/// together, so this stays the same.
pub open spec fn ledger_base(s: CreditsState) -> int {
    s.balance - s.total_earned + s.total_spent
}

/// The balance and every statistic are the same.
pub open spec fn counters_unchanged(a: CreditsState, b: CreditsState) -> bool {
    &&& a.balance == b.balance
    &&& a.total_earned == b.total_earned
    &&& a.total_spent == b.total_spent
    &&& a.ad_reward_count == b.ad_reward_count
    &&& a.waiting_bar_rewards == b.waiting_bar_rewards
    &&& a.modal_rewards == b.modal_rewards
    &&& a.ad_impression_count == b.ad_impression_count
    &&& a.ad_click_count == b.ad_click_count
    &&& a.request_count == b.request_count
}

impl CreditsState {
    /// Records an event as the newest of the recent events.
    pub fn push_event(&mut self, event: CreditEvent)
        ensures
            counters_unchanged(*old(self), *final(self)),
            final(self).recent_events@ == events_after(old(self).recent_events@, event),
            final(self).recent_events@.len() <= RECENT_EVENT_LIMIT,
    {
        let ghost before = self.recent_events@;
        self.recent_events.insert(0, event);
        assert(self.recent_events@ =~= seq![event] + before);
        self.recent_events.truncate(RECENT_EVENT_LIMIT);
    }

    /// An ad reward of `amount` on `surface`: the balance and the total earned
    /// grow by `amount`, the reward is counted (also per surface), and an
    /// `Earn` event is recorded.
    pub fn apply_ad_reward(&mut self, surface: &str, amount: i64, at_ms: u64)
        requires
            i64::MIN <= old(self).balance + amount <= i64::MAX,
            i64::MIN <= old(self).total_earned + amount <= i64::MAX,
            old(self).ad_reward_count < u64::MAX,
            surface_name(surface@) == "waiting_bar"@ ==> old(self).waiting_bar_rewards < u64::MAX,
            surface_name(surface@) == "modal"@ ==> old(self).modal_rewards < u64::MAX,
        ensures
            final(self).balance == old(self).balance + amount,
            final(self).total_earned == old(self).total_earned + amount,
            final(self).total_spent == old(self).total_spent,
            final(self).ad_reward_count == old(self).ad_reward_count + 1,
            final(self).waiting_bar_rewards == old(self).waiting_bar_rewards + (if surface_name(
                surface@,
            ) == "waiting_bar"@ {
                1int
            } else {
                0int
            }),
            final(self).modal_rewards == old(self).modal_rewards + (if surface_name(surface@)
                == "modal"@ {
                1int
            } else {
                0int
            }),
            final(self).ad_impression_count == old(self).ad_impression_count,
            final(self).ad_click_count == old(self).ad_click_count,
            final(self).request_count == old(self).request_count,
            final(self).recent_events@.len() > 0,
            final(self).recent_events@[0].kind == CreditEventKind::Earn,
            final(self).recent_events@[0].amount == amount,
            final(self).recent_events@[0].surface@ == surface_name(surface@),
            final(self).recent_events@[0].note@ == "看广告奖励"@,
            final(self).recent_events@.len() <= RECENT_EVENT_LIMIT,
            ledger_base(*final(self)) == ledger_base(*old(self)),
            final(self).recent_events@[0].at_ms == at_ms,
            final(self).recent_events@.skip(1) == events_after(old(self).recent_events@, final(self).recent_events@[0]).skip(1),
    {
        let normalized = normalize_surface(surface);
        let n = chars_of(normalized);
        self.balance = self.balance + amount;
        self.total_earned = self.total_earned + amount;
        self.ad_reward_count = self.ad_reward_count + 1;
        if equals_str(&n, "waiting_bar") {
            self.waiting_bar_rewards = self.waiting_bar_rewards + 1;
        } else if equals_str(&n, "modal") {
            self.modal_rewards = self.modal_rewards + 1;
        }
        proof {
            if surface_name(surface@) == "waiting_bar"@ {
                assert(surface_name(surface@) != "modal"@) by {
                    reveal_strlit("waiting_bar");
                    reveal_strlit("modal");
                    assert("waiting_bar"@.len() != "modal"@.len());
                }
            }
        }
        let event = CreditEvent {
            kind: CreditEventKind::Earn,
            amount,
            surface: string_of(&n),
            note: string_of(&chars_of("看广告奖励")),
            at_ms,
        };
        self.push_event(event);
    }

    /// An ad impression on `surface`: counted, with an `Impression` event.
    pub fn apply_ad_impression(&mut self, surface: &str, at_ms: u64)
        requires
            old(self).ad_impression_count < u64::MAX,
        ensures
            final(self).ad_impression_count == old(self).ad_impression_count + 1,
            final(self).balance == old(self).balance,
            final(self).total_earned == old(self).total_earned,
            final(self).total_spent == old(self).total_spent,
            final(self).ad_reward_count == old(self).ad_reward_count,
            final(self).waiting_bar_rewards == old(self).waiting_bar_rewards,
            final(self).modal_rewards == old(self).modal_rewards,
            final(self).ad_click_count == old(self).ad_click_count,
            final(self).request_count == old(self).request_count,
            final(self).recent_events@.len() > 0,
            final(self).recent_events@[0].kind == CreditEventKind::Impression,
            final(self).recent_events@[0].amount == 0,
            final(self).recent_events@[0].surface@ == surface_name(surface@),
            final(self).recent_events@[0].note@ == "广告展示"@,
            final(self).recent_events@.len() <= RECENT_EVENT_LIMIT,
            ledger_base(*final(self)) == ledger_base(*old(self)),
            final(self).recent_events@[0].at_ms == at_ms,
            final(self).recent_events@.skip(1) == events_after(old(self).recent_events@, final(self).recent_events@[0]).skip(1),
    {
        let normalized = normalize_surface(surface);
        self.ad_impression_count = self.ad_impression_count + 1;
        let event = CreditEvent {
            kind: CreditEventKind::Impression,
            amount: 0,
            surface: string_of(&chars_of(normalized)),
            note: string_of(&chars_of("广告展示")),
            at_ms,
        };
        self.push_event(event);
    }

    /// An ad click on `surface`: counted, with a `Click` event.
    pub fn apply_ad_click(&mut self, surface: &str, at_ms: u64)
        requires
            old(self).ad_click_count < u64::MAX,
        ensures
            final(self).ad_click_count == old(self).ad_click_count + 1,
            final(self).balance == old(self).balance,
            final(self).total_earned == old(self).total_earned,
            final(self).total_spent == old(self).total_spent,
            final(self).ad_reward_count == old(self).ad_reward_count,
            final(self).waiting_bar_rewards == old(self).waiting_bar_rewards,
            final(self).modal_rewards == old(self).modal_rewards,
            final(self).ad_impression_count == old(self).ad_impression_count,
            final(self).request_count == old(self).request_count,
            final(self).recent_events@.len() > 0,
            final(self).recent_events@[0].kind == CreditEventKind::Click,
            final(self).recent_events@[0].amount == 0,
            final(self).recent_events@[0].surface@ == surface_name(surface@),
            final(self).recent_events@[0].note@ == "广告点击"@,
            final(self).recent_events@.len() <= RECENT_EVENT_LIMIT,
            ledger_base(*final(self)) == ledger_base(*old(self)),
            final(self).recent_events@[0].at_ms == at_ms,
            final(self).recent_events@.skip(1) == events_after(old(self).recent_events@, final(self).recent_events@[0]).skip(1),
    {
        let normalized = normalize_surface(surface);
        self.ad_click_count = self.ad_click_count + 1;
        let event = CreditEvent {
            kind: CreditEventKind::Click,
            amount: 0,
            surface: string_of(&chars_of(normalized)),
            note: string_of(&chars_of("广告点击")),
            at_ms,
        };
        self.push_event(event);
    }

    /// Adds `amount` to the balance and returns the new balance.
    pub fn apply_credit(&mut self, amount: i64) -> (balance: i64)
        requires
            i64::MIN <= old(self).balance + amount <= i64::MAX,
        ensures
            balance == final(self).balance,
            final(self).balance == old(self).balance + amount,
            final(self).total_earned == old(self).total_earned,
            final(self).total_spent == old(self).total_spent,
            final(self).ad_reward_count == old(self).ad_reward_count,
            final(self).waiting_bar_rewards == old(self).waiting_bar_rewards,
            final(self).modal_rewards == old(self).modal_rewards,
            final(self).ad_impression_count == old(self).ad_impression_count,
            final(self).ad_click_count == old(self).ad_click_count,
            final(self).request_count == old(self).request_count,
            final(self).recent_events@ == old(self).recent_events@,
    {
        self.balance = self.balance + amount;
        self.balance
    }

    /// Charges `amount` for a request. Nothing is charged for a non-positive
    /// amount (success); a balance below `amount` refuses the charge and
    /// changes nothing; otherwise the balance drops by `amount`, the total
    /// spent grows by it, the request is counted and a `Spend` event recorded.
    pub fn apply_deduction(&mut self, amount: i64, at_ms: u64) -> (charged: bool)
        requires
            amount > 0 && old(self).balance >= amount ==> old(self).total_spent + amount <= i64::MAX,
            amount > 0 && old(self).balance >= amount ==> old(self).request_count < u64::MAX,
        ensures
            charged == (amount <= 0 || old(self).balance >= amount),
            ledger_base(*final(self)) == ledger_base(*old(self)),
            amount <= 0 || old(self).balance < amount ==> {
                &&& counters_unchanged(*old(self), *final(self))
                &&& final(self).recent_events@ == old(self).recent_events@
            },
            amount > 0 && old(self).balance >= amount ==> {
                &&& final(self).balance == old(self).balance - amount
                &&& final(self).total_spent == old(self).total_spent + amount
                &&& final(self).request_count == old(self).request_count + 1
                &&& final(self).total_earned == old(self).total_earned
                &&& final(self).ad_reward_count == old(self).ad_reward_count
                &&& final(self).waiting_bar_rewards == old(self).waiting_bar_rewards
                &&& final(self).modal_rewards == old(self).modal_rewards
                &&& final(self).ad_impression_count == old(self).ad_impression_count
                &&& final(self).ad_click_count == old(self).ad_click_count
                &&& final(self).recent_events@.len() > 0
                &&& final(self).recent_events@[0].kind == CreditEventKind::Spend
                &&& final(self).recent_events@[0].amount == amount
                &&& final(self).recent_events@[0].surface@ == "request"@
                &&& final(self).recent_events@[0].note@ == "AI 对话消耗"@
                &&& final(self).recent_events@.len() <= RECENT_EVENT_LIMIT
                &&& final(self).recent_events@[0].at_ms == at_ms
                &&& final(self).recent_events@.skip(1) == events_after(old(self).recent_events@, final(self).recent_events@[0]).skip(1)
            },
    {
        if amount <= 0 {
            return true;
        }
        if self.balance >= amount {
            self.balance = self.balance - amount;
            self.total_spent = self.total_spent + amount;
            self.request_count = self.request_count + 1;
            let event = CreditEvent {
                kind: CreditEventKind::Spend,
                amount,
                surface: string_of(&chars_of("request")),
                note: string_of(&chars_of("AI 对话消耗")),
                at_ms,
            };
            self.push_event(event);
            true
        } else {
            false
        }
    }
}

/// A state restored from a file that only records a balance: that balance
/// (at least zero) and no activity.
pub fn legacy_credits_state(balance: i64) -> (s: CreditsState)
    ensures
        s.balance == if balance >= 0 { balance } else { 0 },
        s.total_earned == 0,
        s.total_spent == 0,
        s.ad_reward_count == 0,
        s.waiting_bar_rewards == 0,
        s.modal_rewards == 0,
        s.ad_impression_count == 0,
        s.ad_click_count == 0,
        s.request_count == 0,
        s.recent_events@.len() == 0,
{
    let mut s = CreditsState::default();
    s.balance = if balance >= 0 {
        balance
    } else {
        0
    };
    s
}

/// The state read back from the credits file: the full record when it
/// parsed, else the record of a bare balance, else a fresh state.
pub fn restore_credits_state(parsed: Option<CreditsState>, legacy_balance: Option<i64>) -> (s: CreditsState)
    ensures
        parsed matches Some(p) ==> s == p,
        parsed is None ==> (legacy_balance matches Some(b) ==> s.balance == (if b >= 0 { b } else { 0 })
            && s.total_earned == 0 && s.total_spent == 0 && s.ad_reward_count == 0
            && s.waiting_bar_rewards == 0 && s.modal_rewards == 0 && s.ad_impression_count == 0
            && s.ad_click_count == 0 && s.request_count == 0 && s.recent_events@.len() == 0),
        parsed is None && legacy_balance is None ==> fresh_state(s),
{
    match parsed {
        Some(p) => p,
        None => match legacy_balance {
            Some(b) => legacy_credits_state(b),
            None => CreditsState::default(),
        },
    }
}

/// A JSON integer (`Number` from an `i64`).
pub open spec fn int_json(n: i64) -> JsonValue {
    if n < 0 {
        JsonValue::Number(JsonNumber::NegInt(n))
    } else {
        JsonValue::Number(JsonNumber::PosInt(n as u64))
    }
}

pub fn int_value(n: i64) -> (v: JsonValue)
    ensures
        v == int_json(n),
{
    if n < 0 {
        JsonValue::Number(JsonNumber::NegInt(n))
    } else {
        JsonValue::Number(JsonNumber::PosInt(n as u64))
    }
}

pub open spec fn uint_json(n: u64) -> JsonValue {
    JsonValue::Number(JsonNumber::PosInt(n))
}

/// The name an event kind is written with.
pub open spec fn kind_name(k: CreditEventKind) -> Seq<char> {
    match k {
        CreditEventKind::Earn => "earn"@,
        CreditEventKind::Spend => "spend"@,
        CreditEventKind::Impression => "impression"@,
        CreditEventKind::Click => "click"@,
    }
}

pub fn kind_label(k: CreditEventKind) -> (s: &'static str)
    ensures
        s@ == kind_name(k),
{
    match k {
        CreditEventKind::Earn => "earn",
        CreditEventKind::Spend => "spend",
        CreditEventKind::Impression => "impression",
        CreditEventKind::Click => "click",
    }
}

/// `j` is the JSON record of an event: `{kind, amount, surface, note, at_ms}`.
pub open spec fn event_json(ev: CreditEvent, j: JsonValue) -> bool {
    j matches JsonValue::Object(e) && e@.len() == 5 && e@[0].key@ == "kind"@ && text_of(
        Some(e@[0].value),
    ) == Some(kind_name(ev.kind)) && e@[1].key@ == "amount"@ && e@[1].value == int_json(ev.amount)
        && e@[2].key@ == "surface"@ && text_of(Some(e@[2].value)) == Some(ev.surface@)
        && e@[3].key@ == "note"@ && text_of(Some(e@[3].value)) == Some(ev.note@) && e@[4].key@
        == "at_ms"@ && e@[4].value == uint_json(ev.at_ms)
}

pub fn event_to_json(ev: &CreditEvent) -> (j: JsonValue)
    ensures
        event_json(*ev, j),
{
    let mut e: Vec<JsonEntry> = Vec::new();
    e.push(entry("kind", JsonValue::String(string_of(&chars_of(kind_label(ev.kind))))));
    e.push(entry("amount", int_value(ev.amount)));
    e.push(entry("surface", JsonValue::String(ev.surface.clone())));
    e.push(entry("note", JsonValue::String(ev.note.clone())));
    e.push(entry("at_ms", JsonValue::Number(JsonNumber::PosInt(ev.at_ms))));
    JsonValue::Object(e)
}

/// `j` is the statistics record of a state.
pub open spec fn stats_json(s: CreditsState, j: JsonValue) -> bool {
    j matches JsonValue::Object(e) && e@.len() == 9 && e@[0].key@ == "total_earned"@ && e@[0].value
        == int_json(s.total_earned) && e@[1].key@ == "total_spent"@ && e@[1].value == int_json(
        s.total_spent,
    ) && e@[2].key@ == "ad_reward_count"@ && e@[2].value == uint_json(s.ad_reward_count)
        && e@[3].key@ == "waiting_bar_rewards"@ && e@[3].value == uint_json(s.waiting_bar_rewards)
        && e@[4].key@ == "modal_rewards"@ && e@[4].value == uint_json(s.modal_rewards)
        && e@[5].key@ == "ad_impression_count"@ && e@[5].value == uint_json(s.ad_impression_count)
        && e@[6].key@ == "ad_click_count"@ && e@[6].value == uint_json(s.ad_click_count)
        && e@[7].key@ == "request_count"@ && e@[7].value == uint_json(s.request_count)
        && e@[8].key@ == "recent_events"@ && (e@[8].value matches JsonValue::Array(evs)
        && evs@.len() == s.recent_events@.len() && forall|k: int|
        0 <= k < evs@.len() ==> event_json(s.recent_events@[k], #[trigger] evs@[k]))
}

pub fn credit_stats_json(s: &CreditsState) -> (j: JsonValue)
    ensures
        stats_json(*s, j),
{
    let mut evs: Vec<JsonValue> = Vec::new();
    let n = s.recent_events.len();
    for i in 0..n
        invariant
            n == s.recent_events@.len(),
            evs@.len() == i,
            forall|k: int| 0 <= k < i ==> event_json(s.recent_events@[k], #[trigger] evs@[k]),
    {
        evs.push(event_to_json(&s.recent_events[i]));
    }
    let mut e: Vec<JsonEntry> = Vec::new();
    e.push(entry("total_earned", int_value(s.total_earned)));
    e.push(entry("total_spent", int_value(s.total_spent)));
    e.push(entry("ad_reward_count", JsonValue::Number(JsonNumber::PosInt(s.ad_reward_count))));
    e.push(entry("waiting_bar_rewards", JsonValue::Number(JsonNumber::PosInt(s.waiting_bar_rewards))));
    e.push(entry("modal_rewards", JsonValue::Number(JsonNumber::PosInt(s.modal_rewards))));
    e.push(entry("ad_impression_count", JsonValue::Number(JsonNumber::PosInt(s.ad_impression_count))));
    e.push(entry("ad_click_count", JsonValue::Number(JsonNumber::PosInt(s.ad_click_count))));
    e.push(entry("request_count", JsonValue::Number(JsonNumber::PosInt(s.request_count))));
    e.push(entry("recent_events", JsonValue::Array(evs)));
    JsonValue::Object(e)
}

/// `"free"` while requests cost nothing, else `"metered"`.
pub open spec fn phase_name() -> Seq<char> {
    if COST_PER_REQUEST <= 0 {
        "free"@
    } else {
        "metered"@
    }
}

pub open spec fn earn_help() -> Seq<char> {
    "看广告赚算力：等待栏广告满 5 秒或手动看广告，每次 +"@ + decimal(REWARD_PER_AD as nat) + " 算力。"@
}

pub open spec fn spend_help() -> Seq<char> {
    if COST_PER_REQUEST > 0 {
        "每次 AI 对话消耗 "@ + decimal(COST_PER_REQUEST as nat) + " 算力。"@
    } else {
        "当前为全免费阶段：每次 AI 对话暂不扣算力，余额不会因对话减少。"@
    }
}

/// `j` is the help record shown with the credits.
pub open spec fn help_json(j: JsonValue) -> bool {
    j matches JsonValue::Object(e) && e@.len() == 4 && e@[0].key@ == "title"@ && text_of(
        Some(e@[0].value),
    ) == Some("算力（Compute Credits）说明"@) && e@[1].key@ == "earn"@ && text_of(Some(e@[1].value))
        == Some(earn_help()) && e@[2].key@ == "spend"@ && text_of(Some(e@[2].value)) == Some(
        spend_help(),
    ) && e@[3].key@ == "future"@ && text_of(Some(e@[3].value)) == Some(
        "算力不足时，将自动降级到节流模式；看广告可继续补充算力。"@,
    )
}

fn credits_help_json() -> (j: JsonValue)
    ensures
        help_json(j),
{
    let mut earn = chars_of("看广告赚算力：等待栏广告满 5 秒或手动看广告，每次 +");
    push_decimal(&mut earn, REWARD_PER_AD as u128);
    push_str(&mut earn, " 算力。");
    let spend = if COST_PER_REQUEST > 0 {
        let mut s = chars_of("每次 AI 对话消耗 ");
        push_decimal(&mut s, COST_PER_REQUEST as u128);
        push_str(&mut s, " 算力。");
        s
    } else {
        chars_of("当前为全免费阶段：每次 AI 对话暂不扣算力，余额不会因对话减少。")
    };
    let mut e: Vec<JsonEntry> = Vec::new();
    e.push(entry("title", JsonValue::String(string_of(&chars_of("算力（Compute Credits）说明")))));
    e.push(entry("earn", JsonValue::String(string_of(&earn))));
    e.push(entry("spend", JsonValue::String(string_of(&spend))));
    e.push(
        entry(
            "future",
            JsonValue::String(string_of(&chars_of("算力不足时，将自动降级到节流模式；看广告可继续补充算力。"))),
        ),
    );
    JsonValue::Object(e)
}

/// The credits summary handed to the client: balance, prices, phase,
/// statistics and help.
pub fn credits_summary(state: &CreditsState) -> (j: JsonValue)
    ensures
        j matches JsonValue::Object(e) && e@.len() == 7 && e@[0].key@ == "balance"@ && e@[0].value
            == int_json(state.balance) && e@[1].key@ == "reward_per_ad"@ && e@[1].value == int_json(
            REWARD_PER_AD,
        ) && e@[2].key@ == "cost_per_request"@ && e@[2].value == int_json(COST_PER_REQUEST)
            && e@[3].key@ == "phase"@ && text_of(Some(e@[3].value)) == Some(phase_name())
            && e@[4].key@ == "initial_balance"@ && e@[4].value == int_json(INITIAL_BALANCE)
            && e@[5].key@ == "stats"@ && stats_json(*state, e@[5].value) && e@[6].key@ == "help"@
            && help_json(e@[6].value),
{
    let phase = if COST_PER_REQUEST <= 0 {
        "free"
    } else {
        "metered"
    };
    let mut e: Vec<JsonEntry> = Vec::new();
    e.push(entry("balance", int_value(state.balance)));
    e.push(entry("reward_per_ad", int_value(REWARD_PER_AD)));
    e.push(entry("cost_per_request", int_value(COST_PER_REQUEST)));
    e.push(entry("phase", JsonValue::String(string_of(&chars_of(phase)))));
    e.push(entry("initial_balance", int_value(INITIAL_BALANCE)));
    e.push(entry("stats", credit_stats_json(state)));
    e.push(entry("help", credits_help_json()));
    JsonValue::Object(e)
}

/// The answer to a verified ad reward: success, the new balance, the reward
/// and the statistics of the rewarded state.
pub fn ad_reward_response(state: &CreditsState) -> (j: JsonValue)
    ensures
        j matches JsonValue::Object(e) && e@.len() == 4 && e@[0].key@ == "success"@ && e@[0].value
            == JsonValue::Bool(true) && e@[1].key@ == "balance"@ && e@[1].value == int_json(
            state.balance,
        ) && e@[2].key@ == "reward"@ && e@[2].value == int_json(REWARD_PER_AD) && e@[3].key@
            == "stats"@ && stats_json(*state, e@[3].value),
{
    let mut e: Vec<JsonEntry> = Vec::new();
    e.push(entry("success", JsonValue::Bool(true)));
    e.push(entry("balance", int_value(state.balance)));
    e.push(entry("reward", int_value(REWARD_PER_AD)));
    e.push(entry("stats", credit_stats_json(state)));
    JsonValue::Object(e)
}

/// The answer to an ad reward whose nonce was not valid.
pub fn ad_reward_rejection() -> (j: JsonValue)
    ensures
        j matches JsonValue::Object(e) && e@.len() == 2 && e@[0].key@ == "success"@ && e@[0].value
            == JsonValue::Bool(false) && e@[1].key@ == "error"@ && text_of(Some(e@[1].value))
            == Some("Invalid or expired ad nonce"@),
{
    let mut e: Vec<JsonEntry> = Vec::new();
    e.push(entry("success", JsonValue::Bool(false)));
    e.push(entry("error", JsonValue::String(string_of(&chars_of("Invalid or expired ad nonce")))));
    JsonValue::Object(e)
}

/// The ad event a client reports: an impression, a click, or an event that
/// is not recorded.
pub open spec fn reported_ad_event(event_type: Seq<char>) -> Option<CreditEventKind> {
    let t = lower(trim(event_type));
    if t == "impression"@ {
        Some(CreditEventKind::Impression)
    } else if t == "click"@ {
        Some(CreditEventKind::Click)
    } else {
        None
    }
}

pub fn credit_ad_event_kind(event_type: &str) -> (k: Option<CreditEventKind>)
    ensures
        k == reported_ad_event(event_type@),
{
    let t = lower_chars(&trim_chars(&chars_of(event_type)));
    if equals_str(&t, "impression") {
        Some(CreditEventKind::Impression)
    } else if equals_str(&t, "click") {
        Some(CreditEventKind::Click)
    } else {
        None
    }
}

/// The nonces handed out for ads that have not been redeemed yet, and the
/// count of nonces issued so far.
pub struct NonceRegistry {
    pub issued: Vec<String>,
    pub counter: usize,
}

/// The text of the nonce issued at `now_ms` with count `count`.
pub open spec fn nonce_text(now_ms: u128, count: usize) -> Seq<char> {
    "fc-nonce-"@ + decimal(now_ms as nat) + "-"@ + decimal(count as nat)
}

impl NonceRegistry {
    /// The nonces that can still be redeemed.
    pub open spec fn pending(self) -> Set<Seq<char>> {
        Set::new(|n: Seq<char>| exists|i: int| 0 <= i < self.issued@.len() && self.issued@[i]@ == n)
    }

    /// No nonce is held twice, and every held text is a nonce: the text of
    /// some clock reading and count.
    pub open spec fn wf(self) -> bool {
        &&& forall|i: int, j: int|
            0 <= i < self.issued@.len() && 0 <= j < self.issued@.len() && i != j
                ==> self.issued@[i]@ != self.issued@[j]@
        &&& forall|i: int|
            #![trigger self.issued@[i]]
            0 <= i < self.issued@.len() ==> exists|ms: u128, c: usize|
                self.issued@[i]@ == #[trigger] nonce_text(ms, c)
    }

    pub fn new() -> (r: NonceRegistry)
        ensures
            r.wf(),
            r.pending() == Set::<Seq<char>>::empty(),
            r.counter == 0,
    {
        let r = NonceRegistry { issued: Vec::new(), counter: 0 };
        assert(r.pending() =~= Set::<Seq<char>>::empty());
        r
    }

    fn position(&self, nonce: &String) -> (r: Option<usize>)
        ensures
            match r {
                Some(i) => i < self.issued@.len() && self.issued@[i as int]@ == nonce@,
                None => !self.pending().contains(nonce@),
            },
    {
        let n = self.issued.len();
        for i in 0..n
            invariant
                n == self.issued@.len(),
                forall|j: int| 0 <= j < i ==> self.issued@[j]@ != nonce@,
        {
            if self.issued[i] == *nonce {
                return Some(i);
            }
        }
        None
    }
}

/// Issues a new ad nonce `fc-nonce-<now_ms>-<count>`, where the count is the
/// number of nonces issued before (wrapping), and keeps it for one redemption.
pub fn generate_ad_nonce(registry: &mut NonceRegistry, now_ms: u128) -> (nonce: String)
    requires
        old(registry).wf(),
    ensures
        final(registry).wf(),
        nonce@ == nonce_text(now_ms, old(registry).counter),
        final(registry).counter == vstd::wrapping::usize_specs::wrapping_add(old(registry).counter, 1),
        final(registry).pending() == old(registry).pending().insert(nonce@),
{
    let count = registry.counter;
    registry.counter = registry.counter.wrapping_add(1);
    let mut v = chars_of("fc-nonce-");
    push_decimal(&mut v, now_ms);
    push_str(&mut v, "-");
    push_decimal(&mut v, count as u128);
    let nonce = string_of(&v);
    let ghost before = *registry;
    match registry.position(&nonce) {
        Some(_) => {
            assert(registry.pending() =~= before.pending().insert(nonce@));
        },
        None => {
            registry.issued.push(nonce.clone());
            assert(registry.issued@[before.issued@.len() as int]@ == nonce_text(now_ms, count));
            assert forall|i: int| 0 <= i < before.issued@.len() implies registry.issued@[i] == before.issued@[i] by {}
            assert(registry.pending() =~= before.pending().insert(nonce@)) by {
                assert forall|x: Seq<char>| registry.pending().contains(x) implies before.pending().insert(nonce@).contains(x) by {
                    let i = choose|i: int| 0 <= i < registry.issued@.len() && registry.issued@[i]@ == x;
                    if i < before.issued@.len() {
                        assert(before.issued@[i] == registry.issued@[i]);
                    }
                }
                assert forall|x: Seq<char>| before.pending().insert(nonce@).contains(x) implies registry.pending().contains(x) by {
                    if x == nonce@ {
                        assert(registry.issued@[before.issued@.len() as int]@ == x);
                    } else {
                        let i = choose|i: int| 0 <= i < before.issued@.len() && before.issued@[i]@ == x;
                        assert(registry.issued@[i] == before.issued@[i]);
                    }
                }
            }
        },
    }
    nonce
}

/// Redeems an ad nonce: true, and the nonce is gone, when it was pending;
/// false otherwise.
pub fn verify_and_consume_nonce(registry: &mut NonceRegistry, nonce: &str) -> (valid: bool)
    requires
        old(registry).wf(),
    ensures
        final(registry).wf(),
        valid == old(registry).pending().contains(nonce@),
        final(registry).pending() == old(registry).pending().remove(nonce@),
        final(registry).counter == old(registry).counter,
{
    let target = string_of(&chars_of(nonce));
    let ghost before = *registry;
    match registry.position(&target) {
        Some(i) => {
            registry.issued.remove(i);
            assert(registry.pending() =~= before.pending().remove(nonce@)) by {
                assert forall|x: Seq<char>| registry.pending().contains(x) implies before.pending().remove(nonce@).contains(x) by {
                    let k = choose|k: int| 0 <= k < registry.issued@.len() && registry.issued@[k]@ == x;
                    if k < i {
                        assert(registry.issued@[k] == before.issued@[k]);
                        assert(k != i);
                    } else {
                        assert(registry.issued@[k] == before.issued@[k + 1]);
                        assert(k + 1 != i);
                    }
                }
                assert forall|x: Seq<char>| before.pending().remove(nonce@).contains(x) implies registry.pending().contains(x) by {
                    let k = choose|k: int| 0 <= k < before.issued@.len() && before.issued@[k]@ == x;
                    assert(k != i);
                    if k < i {
                        assert(registry.issued@[k] == before.issued@[k]);
                    } else {
                        assert(registry.issued@[k - 1] == before.issued@[k]);
                    }
                }
            }
            true
        },
        None => {
            assert(registry.pending() =~= before.pending().remove(nonce@));
            false
        },
    }
}

/// An issued nonce redeems exactly once: right after it is issued it is
/// pending, and once redeemed it is not.
pub proof fn lemma_nonce_redeems_once(pending: Set<Seq<char>>, nonce: Seq<char>)
    ensures
        pending.insert(nonce).contains(nonce),
        !pending.insert(nonce).remove(nonce).contains(nonce),
{
}

/// The text of a nonce determines the clock reading and the count it was
/// made from: nonces with different counts never coincide.
pub proof fn lemma_nonce_text_injective(t1: u128, c1: usize, t2: u128, c2: usize)
    requires
        nonce_text(t1, c1) == nonce_text(t2, c2),
    ensures
        t1 == t2,
        c1 == c2,
{
    reveal_strlit("-");
    let p = "fc-nonce-"@;
    let (d1, e1) = (decimal(t1 as nat), decimal(c1 as nat));
    let (d2, e2) = (decimal(t2 as nat), decimal(c2 as nat));
    let x1 = d1 + "-"@ + e1;
    let x2 = d2 + "-"@ + e2;
    assert(nonce_text(t1, c1) == p + x1);
    assert(nonce_text(t2, c2) == p + x2);
    assert((p + x1).skip(p.len() as int) == x1);
    assert((p + x2).skip(p.len() as int) == x2);
    lemma_decimal_digits(t1 as nat);
    lemma_decimal_digits(t2 as nat);
    if d1.len() < d2.len() {
        assert(x1[d1.len() as int] == '-');
        assert(x2[d1.len() as int] == d2[d1.len() as int]);
    }
    if d2.len() < d1.len() {
        assert(x2[d2.len() as int] == '-');
        assert(x1[d2.len() as int] == d1[d2.len() as int]);
    }
    let n = d1.len() as int;
    assert(x1.take(n) == d1);
    assert(x2.take(n) == d2);
    assert(x1.skip(n + 1) == e1);
    assert(x2.skip(n + 1) == e2);
    lemma_decimal_injective(t1 as nat, t2 as nat);
    lemma_decimal_injective(c1 as nat, c2 as nat);
}

/// Each call of `generate_ad_nonce` counts on by one (wrapping), so two
/// successive calls never hand out the same nonce, whatever the clock reads.
pub proof fn lemma_successive_nonces_differ(t1: u128, t2: u128, count: usize)
    ensures
        nonce_text(t1, count) != nonce_text(t2, vstd::wrapping::usize_specs::wrapping_add(count, 1)),
{
    let next = vstd::wrapping::usize_specs::wrapping_add(count, 1);
    if nonce_text(t1, count) == nonce_text(t2, next) {
        lemma_nonce_text_injective(t1, count, t2, next);
    }
}

/// A text that is not of the nonce form is never pending, so redeeming it is
/// refused in every well-formed registry.
pub proof fn lemma_non_nonce_text_is_refused(registry: NonceRegistry, text: Seq<char>)
    requires
        registry.wf(),
        forall|ms: u128, c: usize| text != #[trigger] nonce_text(ms, c),
    ensures
        !registry.pending().contains(text),
{
    if registry.pending().contains(text) {
        let i = choose|i: int| 0 <= i < registry.issued@.len() && registry.issued@[i]@ == text;
        assert(registry.issued@[i]@ == text);
    }
}

} // verus!
