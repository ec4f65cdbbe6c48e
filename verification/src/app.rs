//! App state — per-tab item lists + a selection cursor — and the
//! decisions the front end asks of it. Fetching, the clock, the browser,
//! the clipboard and the pager stay with the front end, which hands the
//! outcome of each back to the method that owns the decision.

use vstd::prelude::*;
use vstd::string::StrSliceExecFns;
use crate::config::{Config, Tab, config_valid, known_kind, is_known_kind, all_kinds_known, debug_quoted, debug_text};
use crate::mandrill::{
    message_url, template_url, tag_url, webhooks_url, message_url_text, template_url_text,
    tag_url_text, webhooks_url_text,
    LIST_CAP, order_messages, order_templates, order_tags, order_webhooks,
    Auth, Message, Template, Tag, Webhook, MessageDetail, SmtpEvent, OpenEvent, ClickEvent,
    short_subject_of, display_subject_of, publish_state_of, opt_text,
    key_tail_text, no_subject_text, url_encoded, law_urlencode_injective,
};
use vstd::utf8::encode_utf8;
use crate::sort::ordered_capped;
use crate::text::{str_eq, nat_text, int_text, i64_text, u64_text, join, join_text, texts, digit_char};

verus! {

// ── Tab kinds ────────────────────────────────────────────────────

/// What a tab shows; its kind is one of the four known kinds.
#[derive(Debug, Clone)]
pub struct TabSpec {
    pub kind: String,
}

/// A tab whose kind is not one of the four.
#[derive(Debug, Clone)]
pub struct TabError {
    pub name: String,
    pub kind: String,
}

pub open spec fn tab_error_text(name: Seq<char>, kind: Seq<char>) -> Seq<char> {
    "tab `"@ + name + "`: unknown kind "@ + debug_text(kind)
}

impl TabError {
    /// The message shown to the user.
    pub fn message(&self) -> (r: String)
        ensures
            r@ == tab_error_text(self.name@, self.kind@),
    {
        let mut r = String::from_str("tab `");
        r.append(self.name.as_str());
        r.append("`: unknown kind ");
        let k = debug_quoted(self.kind.as_str());
        r.append(k.as_str());
        r
    }
}

impl TabSpec {
    /// Accepts a tab of a known kind, keeping its kind.
    pub fn resolve(t: &Tab) -> (r: Result<TabSpec, TabError>)
        ensures
            known_kind(t.kind@) ==> (r matches Ok(s) && s.kind@ == t.kind@),
            !known_kind(t.kind@) ==> (r matches Err(e) && e.name@ == t.name@ && e.kind@ == t.kind@),
    {
        if is_known_kind(t.kind.as_str()) {
            Ok(TabSpec { kind: t.kind.clone() })
        } else {
            Err(TabError { name: t.name.clone(), kind: t.kind.clone() })
        }
    }
}

// ── Times ────────────────────────────────────────────────────────

/// chrono's rendering of the UTC time `ts` seconds after the Unix epoch
/// as `%m-%d %H:%M`; `None` when chrono cannot represent that time.
pub uninterp spec fn utc_minute_text(ts: i64) -> Option<Seq<char>>;

/// Two-digit rendering of `0 <= n < 100`.
pub open spec fn two_digits(n: int) -> Seq<char> {
    seq![digit_char(n / 10), digit_char(n % 10)]
}

pub open spec fn is_ascii_digit(c: char) -> bool {
    '0' <= c <= '9'
}

/// The shape of `%m-%d %H:%M` for the time `ts`: two digits each of
/// month and day, then the hour and minute of the day in UTC.
pub open spec fn minute_text_shape(ts: i64, s: Seq<char>) -> bool {
    let secs = (ts as int) % 86400;
    &&& s.len() == 11
    &&& is_ascii_digit(s[0]) && is_ascii_digit(s[1])
    &&& s[2] == '-'
    &&& is_ascii_digit(s[3]) && is_ascii_digit(s[4])
    &&& s[5] == ' '
    &&& s.subrange(6, 8) == two_digits(secs / 3600)
    &&& s[8] == ':'
    &&& s.subrange(9, 11) == two_digits((secs % 3600) / 60)
}

/// chrono's `Utc.timestamp_opt(ts, 0).single()` formatted with
/// `%m-%d %H:%M`. The result is named [`utc_minute_text`]; beyond the name
/// the contract claims only the layout that the format string fixes and
/// the hour and minute, which a Unix timestamp determines by itself (the
/// month and day are left to the name), and that a time exists exactly
/// when its day, counted from the Common Era, is one chrono can hold.
#[verifier::external_body]
fn utc_minute(ts: i64) -> (r: Option<String>)
    ensures
        match r {
            Some(s) => utc_minute_text(ts) == Some(s@) && minute_text_shape(ts, s@),
            None => utc_minute_text(ts) is None,
        },
        r is Some <==> crate::mandrill::chrono_day_in_range(ts as int / 86400 + 719_163),
{
    match chrono::TimeZone::timestamp_opt(&chrono::Utc, ts, 0).single() {
        Some(dt) => Some(dt.format("%m-%d %H:%M").to_string()),
        None => None,
    }
}

/// `—` for a missing (non-positive) time; otherwise chrono's
/// `MM-DD HH:MM` in UTC, or the raw number when chrono cannot represent it.
pub open spec fn short_time_text(ts: i64) -> Seq<char> {
    if ts <= 0 {
        "—"@
    } else {
        match utc_minute_text(ts) {
            Some(s) => s,
            None => int_text(ts as int),
        }
    }
}

/// Format a Unix-epoch-seconds timestamp as `MM-DD HH:MM` UTC (best-effort).
pub fn short_time(ts: i64) -> (r: String)
    ensures
        r@ == short_time_text(ts),
{
    if ts <= 0 {
        return String::from_str("—");
    }
    match utc_minute(ts) {
        Some(s) => s,
        None => i64_text(ts),
    }
}

// ── Items ────────────────────────────────────────────────────────

/// One row of a tab; each tab kind has its own shape.
#[derive(Debug, Clone)]
pub enum Item {
    Message(Message),
    Template(Template),
    Tag(Tag),
    Webhook(Webhook),
}

pub open spec fn primary_label_text(item: Item) -> Seq<char> {
    match item {
        Item::Message(m) => short_subject_of(m.subject@),
        Item::Template(t) => if t.name@.len() == 0 {
            t.slug@
        } else {
            t.name@
        },
        Item::Tag(t) => t.tag@,
        Item::Webhook(w) => w.url@,
    }
}

pub open spec fn secondary_label_text(item: Item, bounce_pct: Seq<char>) -> Seq<char> {
    match item {
        Item::Message(m) => short_time_text(m.ts) + "  "@ + (if m.email@.len() == 0 {
            "—"@
        } else {
            m.email@
        }) + "  · "@ + m.state@,
        Item::Template(t) => {
            let subj = display_subject_of(opt_text(t.publish_subject), opt_text(t.subject));
            "["@ + publish_state_of(opt_text(t.published_at)) + "] "@ + (if subj.len() == 0 {
                no_subject_text()
            } else {
                subj
            })
        },
        Item::Tag(t) => int_text(t.sent as int) + " sent · "@ + bounce_pct + "% bounce"@,
        Item::Webhook(w) => (if w.events@.len() == 0 {
            "(no events)"@
        } else {
            join_text(texts(w.events@), ","@)
        }) + " · key "@ + key_tail_text(w.auth_key@),
    }
}

impl Item {
    /// The left column: subject, template name (slug when unnamed), tag
    /// name or webhook URL.
    pub fn primary_label(&self) -> (r: String)
        ensures
            r@ == primary_label_text(*self),
    {
        match self {
            Item::Message(m) => String::from_str(m.short_subject()),
            Item::Template(t) => {
                if t.name.as_str().is_empty() {
                    t.slug.clone()
                } else {
                    t.name.clone()
                }
            },
            Item::Tag(t) => t.tag.clone(),
            Item::Webhook(w) => w.url.clone(),
        }
    }

    /// The right column. `bounce_pct` is a tag's bounce rate in percent,
    /// already rendered with two decimals; other items ignore it.
    pub fn secondary_label(&self, bounce_pct: &str) -> (r: String)
        ensures
            r@ == secondary_label_text(*self, bounce_pct@),
    {
        match self {
            Item::Message(m) => {
                let mut r = short_time(m.ts);
                r.append("  ");
                if m.email.as_str().is_empty() {
                    r.append("—");
                } else {
                    r.append(m.email.as_str());
                }
                r.append("  · ");
                r.append(m.state.as_str());
                r
            },
            Item::Template(t) => {
                let subj = t.display_subject();
                let mut r = String::from_str("[");
                r.append(t.publish_state());
                r.append("] ");
                if subj.is_empty() {
                    r.append("(no subject)");
                } else {
                    r.append(subj);
                }
                r
            },
            Item::Tag(t) => {
                let mut r = i64_text(t.sent);
                r.append(" sent · ");
                r.append(bounce_pct);
                r.append("% bounce");
                r
            },
            Item::Webhook(w) => {
                let mut r = if w.events.len() == 0 {
                    String::from_str("(no events)")
                } else {
                    join(&w.events, ",")
                };
                r.append(" · key ");
                let k = w.auth_key_trailing();
                r.append(k.as_str());
                r
            },
        }
    }
}

// ── Tabs ─────────────────────────────────────────────────────────

/// The loaded list of one tab and its cursor.
pub struct ItemsTab {
    pub items: Vec<Item>,
    pub selected: usize,
    /// When the list was last loaded, in nanoseconds of the front end's
    /// monotonic clock.
    pub last_loaded: Option<u64>,
    pub last_error: Option<String>,
    pub loading: bool,
    /// Set when the source returned more than `LIST_CAP` items.
    pub truncated: bool,
}

/// A tab that has not loaded anything yet.
pub open spec fn fresh_items(d: ItemsTab) -> bool {
    &&& d.items@.len() == 0
    &&& d.selected == 0
    &&& d.last_loaded is None
    &&& d.last_error is None
    &&& !d.loading
    &&& !d.truncated
}

impl ItemsTab {
    pub fn empty() -> (r: ItemsTab)
        ensures
            fresh_items(r),
    {
        ItemsTab {
            items: Vec::new(),
            selected: 0,
            last_loaded: None,
            last_error: None,
            loading: false,
            truncated: false,
        }
    }
}

/// The cursor is on an item, or at 0 when there is none.
pub open spec fn selection_in_range(d: ItemsTab) -> bool {
    if d.items@.len() == 0 {
        d.selected == 0
    } else {
        d.selected < d.items@.len()
    }
}

pub struct TabState {
    pub name: String,
    pub spec: TabSpec,
    pub data: ItemsTab,
}

pub open spec fn tab_wf(t: TabState) -> bool {
    &&& known_kind(t.spec.kind@)
    &&& selection_in_range(t.data)
    &&& t.data.items@.len() <= LIST_CAP
    &&& items_of_kind(t.data.items@, fetch_kind_of(t.spec.kind@))
}

pub struct App {
    pub cfg: Config,
    pub auth: Auth,
    pub tabs: Vec<TabState>,
    pub active_tab: usize,
    pub status: String,
}

/// What to load for the active tab.
#[derive(Debug, Clone, Copy, PartialEq, Eq, Structural)]
pub enum FetchKind {
    Messages,
    Templates,
    Tags,
    Webhooks,
}

pub open spec fn fetch_kind_of(kind: Seq<char>) -> FetchKind {
    if kind == "messages"@ {
        FetchKind::Messages
    } else if kind == "templates"@ {
        FetchKind::Templates
    } else if kind == "tags"@ {
        FetchKind::Tags
    } else {
        FetchKind::Webhooks
    }
}

fn fetch_kind(kind: &str) -> (r: FetchKind)
    ensures
        r == fetch_kind_of(kind@),
{
    if str_eq(kind, "messages") {
        FetchKind::Messages
    } else if str_eq(kind, "templates") {
        FetchKind::Templates
    } else if str_eq(kind, "tags") {
        FetchKind::Tags
    } else {
        FetchKind::Webhooks
    }
}

/// The list kind an item belongs to.
pub open spec fn item_kind(item: Item) -> FetchKind {
    match item {
        Item::Message(_) => FetchKind::Messages,
        Item::Template(_) => FetchKind::Templates,
        Item::Tag(_) => FetchKind::Tags,
        Item::Webhook(_) => FetchKind::Webhooks,
    }
}

/// Every item is of the list kind `kind`.
pub open spec fn items_of_kind(items: Seq<Item>, kind: FetchKind) -> bool {
    forall|i: int| 0 <= i < items.len() ==> item_kind(#[trigger] items[i]) == kind
}

/// A request the front end carries out for [`App::refresh_active`].
#[derive(Debug, Clone, Copy)]
pub struct FetchRequest {
    pub kind: FetchKind,
    /// Days of messages to search, for the messages kind.
    pub lookback_days: u64,
}

/// A list as the API returned it, before ordering and capping.
pub enum Fetched {
    Messages(Vec<Message>),
    Templates(Vec<Template>),
    Tags(Vec<Tag>),
    Webhooks(Vec<Webhook>),
}

/// How many items the API returned.
pub open spec fn fetched_len(f: Fetched) -> nat {
    match f {
        Fetched::Messages(v) => v@.len(),
        Fetched::Templates(v) => v@.len(),
        Fetched::Tags(v) => v@.len(),
        Fetched::Webhooks(v) => v@.len(),
    }
}

/// The list kind of a fetched list.
pub open spec fn fetched_kind(f: Fetched) -> FetchKind {
    match f {
        Fetched::Messages(_) => FetchKind::Messages,
        Fetched::Templates(_) => FetchKind::Templates,
        Fetched::Tags(_) => FetchKind::Tags,
        Fetched::Webhooks(_) => FetchKind::Webhooks,
    }
}

impl Fetched {
    /// The list kind of this fetched list.
    pub fn kind(&self) -> (r: FetchKind)
        ensures
            r == fetched_kind(*self),
    {
        match self {
            Fetched::Messages(_) => FetchKind::Messages,
            Fetched::Templates(_) => FetchKind::Templates,
            Fetched::Tags(_) => FetchKind::Tags,
            Fetched::Webhooks(_) => FetchKind::Webhooks,
        }
    }
}

/// `items` is the fetched list in display order, capped at `LIST_CAP`.
pub open spec fn listing(f: Fetched, items: Seq<Item>) -> bool {
    match f {
        Fetched::Messages(v) => exists|o: Seq<Message>|
            #[trigger] ordered_capped(v@, o, LIST_CAP as nat) && items == o.map_values(
                |m: Message| Item::Message(m),
            ),
        Fetched::Templates(v) => exists|o: Seq<Template>|
            #[trigger] ordered_capped(v@, o, LIST_CAP as nat) && items == o.map_values(
                |t: Template| Item::Template(t),
            ),
        Fetched::Tags(v) => exists|o: Seq<Tag>|
            #[trigger] ordered_capped(v@, o, LIST_CAP as nat) && items == o.map_values(
                |t: Tag| Item::Tag(t),
            ),
        Fetched::Webhooks(v) => exists|o: Seq<Webhook>|
            #[trigger] ordered_capped(v@, o, LIST_CAP as nat) && items == o.map_values(
                |w: Webhook| Item::Webhook(w),
            ),
    }
}

fn wrap_messages(v: Vec<Message>) -> (r: Vec<Item>)
    ensures
        r@ == v@.map_values(|m: Message| Item::Message(m)),
{
    let ghost orig = v@;
    let mut rest = v;
    let mut out: Vec<Item> = Vec::new();
    while rest.len() > 0
        invariant
            out@.len() + rest@.len() == orig.len(),
            rest@ == orig.skip(out@.len() as int),
            out@ == orig.take(out@.len() as int).map_values(|m: Message| Item::Message(m)),
        decreases rest@.len(),
    {
        let ghost k = out@.len() as int;
        let m = rest.remove(0);
        out.push(Item::Message(m));
        assert(orig.take(k + 1).map_values(|m: Message| Item::Message(m)) =~= out@);
        assert(rest@ =~= orig.skip(k + 1));
    }
    assert(orig.take(orig.len() as int) =~= orig);
    out
}

fn wrap_templates(v: Vec<Template>) -> (r: Vec<Item>)
    ensures
        r@ == v@.map_values(|t: Template| Item::Template(t)),
{
    let ghost orig = v@;
    let mut rest = v;
    let mut out: Vec<Item> = Vec::new();
    while rest.len() > 0
        invariant
            out@.len() + rest@.len() == orig.len(),
            rest@ == orig.skip(out@.len() as int),
            out@ == orig.take(out@.len() as int).map_values(|t: Template| Item::Template(t)),
        decreases rest@.len(),
    {
        let ghost k = out@.len() as int;
        let t = rest.remove(0);
        out.push(Item::Template(t));
        assert(orig.take(k + 1).map_values(|t: Template| Item::Template(t)) =~= out@);
        assert(rest@ =~= orig.skip(k + 1));
    }
    assert(orig.take(orig.len() as int) =~= orig);
    out
}

fn wrap_tags(v: Vec<Tag>) -> (r: Vec<Item>)
    ensures
        r@ == v@.map_values(|t: Tag| Item::Tag(t)),
{
    let ghost orig = v@;
    let mut rest = v;
    let mut out: Vec<Item> = Vec::new();
    while rest.len() > 0
        invariant
            out@.len() + rest@.len() == orig.len(),
            rest@ == orig.skip(out@.len() as int),
            out@ == orig.take(out@.len() as int).map_values(|t: Tag| Item::Tag(t)),
        decreases rest@.len(),
    {
        let ghost k = out@.len() as int;
        let t = rest.remove(0);
        out.push(Item::Tag(t));
        assert(orig.take(k + 1).map_values(|t: Tag| Item::Tag(t)) =~= out@);
        assert(rest@ =~= orig.skip(k + 1));
    }
    assert(orig.take(orig.len() as int) =~= orig);
    out
}

fn wrap_webhooks(v: Vec<Webhook>) -> (r: Vec<Item>)
    ensures
        r@ == v@.map_values(|w: Webhook| Item::Webhook(w)),
{
    let ghost orig = v@;
    let mut rest = v;
    let mut out: Vec<Item> = Vec::new();
    while rest.len() > 0
        invariant
            out@.len() + rest@.len() == orig.len(),
            rest@ == orig.skip(out@.len() as int),
            out@ == orig.take(out@.len() as int).map_values(|w: Webhook| Item::Webhook(w)),
        decreases rest@.len(),
    {
        let ghost k = out@.len() as int;
        let w = rest.remove(0);
        out.push(Item::Webhook(w));
        assert(orig.take(k + 1).map_values(|w: Webhook| Item::Webhook(w)) =~= out@);
        assert(rest@ =~= orig.skip(k + 1));
    }
    assert(orig.take(orig.len() as int) =~= orig);
    out
}

/// Orders and caps a fetched list; the flag tells whether the API
/// returned more than `LIST_CAP` items.
pub fn into_listing(f: Fetched) -> (r: (Vec<Item>, bool))
    ensures
        listing(f, r.0@),
        r.1 == (fetched_len(f) > LIST_CAP),
        r.0@.len() <= LIST_CAP,
        items_of_kind(r.0@, fetched_kind(f)),
{
    match f {
        Fetched::Messages(v) => {
            let n = v.len();
            let ghost raw = v@;
            let o = order_messages(v);
            let ghost os = o@;
            let items = wrap_messages(o);
            assert(ordered_capped(raw, os, LIST_CAP as nat));
            proof { lemma_capped_len(raw, os); }
            (items, n > LIST_CAP)
        },
        Fetched::Templates(v) => {
            let n = v.len();
            let ghost raw = v@;
            let o = order_templates(v);
            let ghost os = o@;
            let items = wrap_templates(o);
            assert(ordered_capped(raw, os, LIST_CAP as nat));
            proof { lemma_capped_len(raw, os); }
            (items, n > LIST_CAP)
        },
        Fetched::Tags(v) => {
            let n = v.len();
            let ghost raw = v@;
            let o = order_tags(v);
            let ghost os = o@;
            let items = wrap_tags(o);
            assert(ordered_capped(raw, os, LIST_CAP as nat));
            proof { lemma_capped_len(raw, os); }
            (items, n > LIST_CAP)
        },
        Fetched::Webhooks(v) => {
            let n = v.len();
            let ghost raw = v@;
            let o = order_webhooks(v);
            let ghost os = o@;
            let items = wrap_webhooks(o);
            assert(ordered_capped(raw, os, LIST_CAP as nat));
            proof { lemma_capped_len(raw, os); }
            (items, n > LIST_CAP)
        },
    }
}

proof fn lemma_capped_len<T: crate::sort::SortKey>(raw: Seq<T>, o: Seq<T>)
    requires
        ordered_capped(raw, o, LIST_CAP as nat),
    ensures
        o.len() <= LIST_CAP,
        o.len() == (if raw.len() > LIST_CAP { LIST_CAP as nat } else { raw.len() }),
{
    let s = choose|s: Seq<T>| #[trigger] crate::sort::stable_sorted(raw, s) && o == (if s.len() > LIST_CAP as nat {
        s.take(LIST_CAP as int)
    } else {
        s
    });
}

// ── The application state ────────────────────────────────────────

pub open spec fn no_item_text() -> Seq<char> {
    "no item under cursor"@
}

/// What `y` copies for an item.
pub open spec fn yank_text(item: Item) -> Seq<char> {
    match item {
        Item::Message(m) => m.id@,
        Item::Template(t) => t.slug@,
        Item::Tag(t) => t.tag@,
        Item::Webhook(w) => w.url@,
    }
}

/// The Mandrill web page of an item.
pub open spec fn console_url(item: Item) -> Seq<char> {
    match item {
        Item::Message(m) => message_url_text(m.id@),
        Item::Template(t) => template_url_text(t.slug@),
        Item::Tag(t) => tag_url_text(t.tag@),
        Item::Webhook(_) => webhooks_url_text(),
    }
}

/// How showing a message's event log ended, as the front end saw it.
pub enum EventLogOutcome {
    /// `/messages/info.json` failed.
    FetchFailed(String),
    /// The log file could not be written.
    WriteFailed { path: String, error: String },
    /// The pager ran on the log file.
    Shown { path: String },
    /// The pager could not be started.
    SpawnFailed { pager: String, error: String, path: String },
}

pub open spec fn event_log_status(o: EventLogOutcome) -> Seq<char> {
    match o {
        EventLogOutcome::FetchFailed(e) => "message_info failed: "@ + e@,
        EventLogOutcome::WriteFailed { path, error } => "write "@ + path@ + " failed: "@ + error@,
        EventLogOutcome::Shown { path } => "event log: "@ + path@,
        EventLogOutcome::SpawnFailed { pager, error, path } => "spawn "@ + pager@ + " failed: "@
            + error@ + " (log at "@ + path@ + ")"@,
    }
}


/// The name of a tab's kind in the status line.
pub open spec fn kind_label(kind: Seq<char>) -> Seq<char> {
    if known_kind(kind) {
        kind
    } else {
        "items"@
    }
}

/// Status after a successful load.
pub open spec fn loaded_status(name: Seq<char>, count: nat, kind: Seq<char>, truncated: bool) -> Seq<char> {
    name + ": "@ + nat_text(count) + " "@ + kind_label(kind) + (if truncated {
        " (capped)"@
    } else {
        Seq::empty()
    })
}

/// The cursor after a reload: kept, but pulled back onto the last item.
pub open spec fn clamped_selection(old_selected: usize, count: nat) -> int {
    let last: int = if count == 0 { 0 } else { count - 1 };
    if old_selected < last { old_selected as int } else { last }
}

/// The cursor moved by `delta`, held between the first and last item.
pub open spec fn moved_selection(selected: usize, delta: isize, count: nat) -> int {
    let target = selected + delta;
    if target < 0 {
        0
    } else if target > count - 1 {
        count - 1
    } else {
        target
    }
}

/// Whole seconds between two readings of a nanosecond clock; zero when
/// the clock reads earlier than `since`.
pub open spec fn elapsed_secs(now: u64, since: u64) -> int {
    if now >= since {
        (now - since) / 1_000_000_000
    } else {
        0
    }
}

impl App {
    /// The active tab exists and every tab has a known kind and a cursor
    /// in range.
    pub open spec fn wf(&self) -> bool {
        &&& self.active_tab < self.tabs@.len()
        &&& forall|i: int| 0 <= i < self.tabs@.len() ==> #[trigger] tab_wf(self.tabs@[i])
    }

    pub open spec fn active_spec(&self) -> TabState {
        self.tabs@[self.active_tab as int]
    }

    /// Builds the state for a configuration: one empty tab per entry,
    /// the first one active. The front end then loads the first tab
    /// through [`App::refresh_active`].
    pub fn new(cfg: Config, auth: Auth) -> (r: Result<App, TabError>)
        requires
            cfg.tabs@.len() > 0,
        ensures
            r is Ok <==> all_kinds_known(cfg.tabs@),
            r matches Ok(app) ==> {
                &&& app.wf()
                &&& app.cfg == cfg
                &&& app.auth == auth
                &&& app.active_tab == 0
                &&& app.status@ == Seq::<char>::empty()
                &&& app.tabs@.len() == cfg.tabs@.len()
                &&& forall|i: int| 0 <= i < app.tabs@.len() ==> {
                    &&& (#[trigger] app.tabs@[i]).name@ == cfg.tabs@[i].name@
                    &&& app.tabs@[i].spec.kind@ == cfg.tabs@[i].kind@
                    &&& fresh_items(app.tabs@[i].data)
                }
            },
            r matches Err(e) ==> exists|i: int| {
                &&& 0 <= i < cfg.tabs@.len()
                &&& !known_kind(#[trigger] cfg.tabs@[i].kind@)
                &&& forall|j: int| 0 <= j < i ==> known_kind(#[trigger] cfg.tabs@[j].kind@)
                &&& e.name@ == cfg.tabs@[i].name@
                &&& e.kind@ == cfg.tabs@[i].kind@
            },
    {
        let mut tabs: Vec<TabState> = Vec::new();
        let n = cfg.tabs.len();
        for i in 0..n
            invariant
                n == cfg.tabs@.len(),
                tabs@.len() == i,
                forall|j: int| 0 <= j < i ==> known_kind(#[trigger] cfg.tabs@[j].kind@),
                forall|j: int| 0 <= j < i ==> {
                    &&& (#[trigger] tabs@[j]).name@ == cfg.tabs@[j].name@
                    &&& tabs@[j].spec.kind@ == cfg.tabs@[j].kind@
                    &&& fresh_items(tabs@[j].data)
                    &&& tab_wf(tabs@[j])
                },
        {
            let t = &cfg.tabs[i];
            match TabSpec::resolve(t) {
                Ok(spec) => {
                    tabs.push(TabState { name: t.name.clone(), data: ItemsTab::empty(), spec });
                },
                Err(e) => {
                    assert(!known_kind(cfg.tabs@[i as int].kind@));
                    return Err(e);
                },
            }
        }
        Ok(App { cfg, auth, tabs, active_tab: 0, status: String::new() })
    }

    pub fn active(&self) -> (r: &TabState)
        requires
            self.wf(),
        ensures
            *r == self.active_spec(),
    {
        &self.tabs[self.active_tab]
    }

    pub fn active_mut(&mut self) -> (r: &mut TabState)
        requires
            old(self).wf(),
        ensures
            *r == old(self).active_spec(),
            final(self).tabs@ == old(self).tabs@.update(old(self).active_tab as int, *final(r)),
            final(self).active_tab == old(self).active_tab,
            final(self).cfg == old(self).cfg,
            final(self).auth == old(self).auth,
            final(self).status == old(self).status,
    {
        let i = self.active_tab;
        &mut self.tabs[i]
    }

    /// Makes tab `idx` active when it exists; answers whether it still
    /// needs loading (no items and no error), for the front end to call
    /// [`App::refresh_active`].
    pub fn switch_tab(&mut self, idx: usize) -> (needs_load: bool)
        requires
            old(self).wf(),
        ensures
            final(self).wf(),
            final(self).tabs == old(self).tabs,
            final(self).cfg == old(self).cfg,
            final(self).auth == old(self).auth,
            final(self).status == old(self).status,
            idx < old(self).tabs@.len() ==> final(self).active_tab == idx && needs_load == (
            old(self).tabs@[idx as int].data.items@.len() == 0 && old(self).tabs@[idx as int].data.last_error is None),
            idx >= old(self).tabs@.len() ==> final(self).active_tab == old(self).active_tab
                && !needs_load,
    {
        if idx < self.tabs.len() {
            self.active_tab = idx;
            self.tabs[idx].data.items.len() == 0 && self.tabs[idx].data.last_error.is_none()
        } else {
            false
        }
    }

    /// Moves the cursor of the active tab by `delta`, held on the list.
    pub fn move_selection(&mut self, delta: isize)
        requires
            old(self).wf(),
            old(self).active_spec().data.items@.len() > 0 ==> isize::MIN
                <= old(self).active_spec().data.selected + delta <= isize::MAX,
        ensures
            final(self).wf(),
            final(self).active_tab == old(self).active_tab,
            final(self).cfg == old(self).cfg,
            final(self).auth == old(self).auth,
            final(self).status == old(self).status,
            final(self).tabs@.len() == old(self).tabs@.len(),
            forall|i: int|
                0 <= i < old(self).tabs@.len() && i != old(self).active_tab ==> #[trigger] final(self).tabs@[i] == old(self).tabs@[i],
            final(self).active_spec().name == old(self).active_spec().name,
            final(self).active_spec().spec == old(self).active_spec().spec,
            final(self).active_spec().data.items == old(self).active_spec().data.items,
            final(self).active_spec().data.last_loaded == old(self).active_spec().data.last_loaded,
            final(self).active_spec().data.last_error == old(self).active_spec().data.last_error,
            final(self).active_spec().data.loading == old(self).active_spec().data.loading,
            final(self).active_spec().data.truncated == old(self).active_spec().data.truncated,
            old(self).active_spec().data.items@.len() == 0 ==> final(self).active_spec().data.selected
                == old(self).active_spec().data.selected,
            old(self).active_spec().data.items@.len() > 0 ==> final(self).active_spec().data.selected
                == moved_selection(
                old(self).active_spec().data.selected,
                delta,
                old(self).active_spec().data.items@.len(),
            ),
    {
        proof {
            assert(tab_wf(self.tabs@[self.active_tab as int]));
        }
        let tab = self.active_mut();
        if tab.data.items.len() == 0 {
            return;
        }
        let n = tab.data.items.len() as isize;
        let cur = tab.data.selected as isize;
        let target = cur + delta;
        let next = if target < 0 {
            0
        } else if target > n - 1 {
            n - 1
        } else {
            target
        };
        tab.data.selected = next as usize;
        proof {
            assert(tab_wf(*tab));
        }
    }

    /// What the front end must fetch to reload the active tab.
    pub fn refresh_request(&self) -> (r: FetchRequest)
        requires
            self.wf(),
        ensures
            r.kind == fetch_kind_of(self.active_spec().spec.kind@),
            r.lookback_days == self.cfg.messages_lookback_days,
    {
        let kind = fetch_kind(self.tabs[self.active_tab].spec.kind.as_str());
        FetchRequest { kind, lookback_days: self.cfg.messages_lookback_days }
    }

    /// Takes the outcome of loading the active tab, fetched at clock
    /// reading `now`: on success the ordered, capped list replaces the
    /// items and the cursor is pulled back onto it; on failure the items
    /// stay and the error is kept. The status line reports either. A list
    /// handed in must be of the active tab's kind, as
    /// [`App::refresh_request`] asks for.
    pub fn refresh_active(&mut self, outcome: Result<Fetched, String>, now: u64)
        requires
            old(self).wf(),
            outcome matches Ok(f) ==> fetched_kind(f) == fetch_kind_of(
                old(self).active_spec().spec.kind@,
            ),
        ensures
            final(self).wf(),
            final(self).active_tab == old(self).active_tab,
            final(self).cfg == old(self).cfg,
            final(self).auth == old(self).auth,
            final(self).tabs@.len() == old(self).tabs@.len(),
            forall|i: int|
                0 <= i < old(self).tabs@.len() && i != old(self).active_tab ==> #[trigger] final(self).tabs@[i] == old(self).tabs@[i],
            final(self).active_spec().name == old(self).active_spec().name,
            final(self).active_spec().spec == old(self).active_spec().spec,
            !final(self).active_spec().data.loading,
            match outcome {
                Ok(f) => {
                    let d = final(self).active_spec().data;
                    &&& listing(f, d.items@)
                    &&& d.truncated == (fetched_len(f) > LIST_CAP)
                    &&& d.selected == clamped_selection(
                        old(self).active_spec().data.selected,
                        d.items@.len(),
                    )
                    &&& d.last_loaded == Some(now)
                    &&& d.last_error is None
                    &&& final(self).status@ == loaded_status(
                        old(self).active_spec().name@,
                        d.items@.len(),
                        old(self).active_spec().spec.kind@,
                        d.truncated,
                    )
                },
                Err(e) => {
                    let d = final(self).active_spec().data;
                    let o = old(self).active_spec().data;
                    &&& d.items == o.items
                    &&& d.selected == o.selected
                    &&& d.truncated == o.truncated
                    &&& d.last_loaded == o.last_loaded
                    &&& d.last_error == Some(e)
                    &&& final(self).status@ == "error: "@ + e@
                },
            },
    {
        let idx = self.active_tab;
        proof {
            assert(tab_wf(self.tabs@[idx as int]));
        }
        match outcome {
            Ok(f) => {
                let (items, truncated) = into_listing(f);
                let count = items.len();
                let mut status = self.tabs[idx].name.clone();
                status.append(": ");
                let c = u64_text(count as u64);
                status.append(c.as_str());
                status.append(" ");
                status.append(self.tabs[idx].spec.kind.as_str());
                if truncated {
                    status.append(" (capped)");
                }
                let t = &mut self.tabs[idx];
                t.data.loading = false;
                t.data.items = items;
                let last: usize = if count == 0 { 0 } else { count - 1 };
                t.data.selected = if t.data.selected < last { t.data.selected } else { last };
                t.data.last_loaded = Some(now);
                t.data.last_error = None;
                t.data.truncated = truncated;
                proof {
                    assert(tab_wf(*t));
                }
                self.status = status;
            },
            Err(e) => {
                let mut status = String::from_str("error: ");
                status.append(e.as_str());
                let t = &mut self.tabs[idx];
                t.data.loading = false;
                t.data.last_error = Some(e);
                self.status = status;
            },
        }
    }

    /// Runs each frame, at clock reading `now` (nanoseconds): whether the
    /// active tab is due for a reload under `refresh_interval_secs`
    /// (never when that is 0; always when it was never loaded; not while
    /// a load is under way).
    pub fn tick(&self, now: u64) -> (due: bool)
        requires
            self.wf(),
        ensures
            due == (self.cfg.refresh_interval_secs != 0 && match self.active_spec().data.last_loaded {
                Some(t) => elapsed_secs(now, t) >= self.cfg.refresh_interval_secs,
                None => true,
            } && !self.active_spec().data.loading),
    {
        let interval = self.cfg.refresh_interval_secs;
        if interval == 0 {
            return false;
        }
        let d = &self.tabs[self.active_tab].data;
        let stale = match d.last_loaded {
            Some(t) => {
                let elapsed: u64 = if now >= t { (now - t) / 1_000_000_000 } else { 0 };
                elapsed >= interval
            },
            None => true,
        };
        stale && !d.loading
    }

    /// The item under the cursor of the active tab, as a value.
    pub open spec fn focused_spec(&self) -> Option<Item> {
        let d = self.active_spec().data;
        if d.selected < d.items@.len() {
            Some(d.items@[d.selected as int])
        } else {
            None
        }
    }

    /// Nothing but the status line differs between `self` and `other`.
    pub open spec fn same_but_status(&self, other: &App) -> bool {
        &&& self.cfg == other.cfg
        &&& self.auth == other.auth
        &&& self.tabs == other.tabs
        &&& self.active_tab == other.active_tab
    }

    /// `y` — the text to copy for the focused item (message ID, template
    /// slug, tag name, webhook URL). With no item, or an empty one, the
    /// status line says so and there is nothing to copy.
    pub fn yank(&mut self) -> (payload: Option<String>)
        requires
            old(self).wf(),
        ensures
            final(self).wf(),
            final(self).same_but_status(old(self)),
            match old(self).focused_spec() {
                None => payload is None && final(self).status@ == no_item_text(),
                Some(it) => if yank_text(it).len() == 0 {
                    payload is None && final(self).status@ == "nothing to copy"@
                } else {
                    payload matches Some(p) && p@ == yank_text(it) && final(self).status
                        == old(self).status
                },
            },
    {
        let payload = match self.focused_item() {
            Some(Item::Message(m)) => m.id.clone(),
            Some(Item::Template(t)) => t.slug.clone(),
            Some(Item::Tag(t)) => t.tag.clone(),
            Some(Item::Webhook(w)) => w.url.clone(),
            None => {
                self.status = String::from_str("no item under cursor");
                return None;
            },
        };
        if payload.as_str().is_empty() {
            self.status = String::from_str("nothing to copy");
            return None;
        }
        Some(payload)
    }

    /// Reports on the copy of `payload`.
    pub fn yank_done(&mut self, payload: &str, result: Result<(), String>)
        ensures
            final(self).same_but_status(old(self)),
            final(self).status@ == match result {
                Ok(()) => "copied ("@ + nat_text(payload@.len()) + " chars)"@,
                Err(e) => "copy failed: "@ + e@,
            },
    {
        match result {
            Ok(()) => {
                let mut s = String::from_str("copied (");
                let n = u64_text(payload.unicode_len() as u64);
                s.append(n.as_str());
                s.append(" chars)");
                self.status = s;
            },
            Err(e) => {
                let mut s = String::from_str("copy failed: ");
                s.append(e.as_str());
                self.status = s;
            },
        }
    }

    /// `o` / `Enter` — the Mandrill web page of the focused item. With no
    /// item the status line says so.
    pub fn open_console(&mut self) -> (url: Option<String>)
        requires
            old(self).wf(),
        ensures
            final(self).wf(),
            final(self).same_but_status(old(self)),
            match old(self).focused_spec() {
                None => url is None && final(self).status@ == no_item_text(),
                Some(it) => url matches Some(u) && u@ == console_url(it) && final(self).status
                    == old(self).status,
            },
    {
        match self.focused_item() {
            Some(Item::Message(m)) => Some(message_url(m.id.as_str())),
            Some(Item::Template(t)) => Some(template_url(t.slug.as_str())),
            Some(Item::Tag(t)) => Some(tag_url(t.tag.as_str())),
            Some(Item::Webhook(_)) => Some(String::from_str(webhooks_url())),
            None => {
                self.status = String::from_str("no item under cursor");
                None
            },
        }
    }

    /// Reports on opening `url` in the browser.
    pub fn open_console_done(&mut self, url: &str, result: Result<(), String>)
        ensures
            final(self).same_but_status(old(self)),
            final(self).status@ == match result {
                Ok(()) => "opened "@ + url@,
                Err(e) => "open failed: "@ + e@,
            },
    {
        match result {
            Ok(()) => {
                let mut s = String::from_str("opened ");
                s.append(url);
                self.status = s;
            },
            Err(e) => {
                let mut s = String::from_str("open failed: ");
                s.append(e.as_str());
                self.status = s;
            },
        }
    }

    /// `L` — the ID of the focused message, whose event log the front end
    /// then fetches and shows; any other item, or none, is refused on the
    /// status line.
    pub fn event_log(&mut self) -> (id: Option<String>)
        requires
            old(self).wf(),
        ensures
            final(self).wf(),
            final(self).same_but_status(old(self)),
            match old(self).focused_spec() {
                Some(Item::Message(m)) => id matches Some(i) && i@ == m.id@ && final(self).status
                    == old(self).status,
                _ => id is None && final(self).status@
                    == "L event log only available on messages"@,
            },
    {
        match self.focused_item() {
            Some(Item::Message(m)) => Some(m.id.clone()),
            _ => {
                self.status = String::from_str("L event log only available on messages");
                None
            },
        }
    }

    /// Reports how showing the event log ended.
    pub fn event_log_done(&mut self, outcome: EventLogOutcome)
        ensures
            final(self).same_but_status(old(self)),
            final(self).status@ == event_log_status(outcome),
    {
        let s = match outcome {
            EventLogOutcome::FetchFailed(e) => {
                let mut s = String::from_str("message_info failed: ");
                s.append(e.as_str());
                s
            },
            EventLogOutcome::WriteFailed { path, error } => {
                let mut s = String::from_str("write ");
                s.append(path.as_str());
                s.append(" failed: ");
                s.append(error.as_str());
                s
            },
            EventLogOutcome::Shown { path } => {
                let mut s = String::from_str("event log: ");
                s.append(path.as_str());
                s
            },
            EventLogOutcome::SpawnFailed { pager, error, path } => {
                let mut s = String::from_str("spawn ");
                s.append(pager.as_str());
                s.append(" failed: ");
                s.append(error.as_str());
                s.append(" (log at ");
                s.append(path.as_str());
                s.append(")");
                s
            },
        };
        self.status = s;
    }

    /// The item under the cursor of the active tab.
    pub fn focused_item(&self) -> (r: Option<&Item>)
        requires
            self.wf(),
        ensures
            match r {
                Some(it) => self.active_spec().data.selected < self.active_spec().data.items@.len()
                    && *it == self.active_spec().data.items@[self.active_spec().data.selected as int],
                None => self.active_spec().data.items@.len() == 0,
            },
    {
        let t = self.active();
        proof {
            assert(tab_wf(self.tabs@[self.active_tab as int]));
        }
        if t.data.selected < t.data.items.len() {
            Some(&t.data.items[t.data.selected])
        } else {
            None
        }
    }
}

// ── Event log ────────────────────────────────────────────────────

pub open spec fn smtp_lines(evs: Seq<SmtpEvent>) -> Seq<char>
    decreases evs.len(),
{
    if evs.len() == 0 {
        Seq::empty()
    } else {
        let e = evs.last();
        smtp_lines(evs.drop_last()) + "  "@ + short_time_text(e.ts) + " ["@ + e.event_type@ + "] "@
            + e.diag@ + "\n"@
    }
}

pub open spec fn open_lines(evs: Seq<OpenEvent>) -> Seq<char>
    decreases evs.len(),
{
    if evs.len() == 0 {
        Seq::empty()
    } else {
        let e = evs.last();
        open_lines(evs.drop_last()) + "  "@ + short_time_text(e.ts) + " "@ + e.ip@ + " "@ + e.ua@
            + "\n"@
    }
}

pub open spec fn click_lines(evs: Seq<ClickEvent>) -> Seq<char>
    decreases evs.len(),
{
    if evs.len() == 0 {
        Seq::empty()
    } else {
        let e = evs.last();
        click_lines(evs.drop_last()) + "  "@ + short_time_text(e.ts) + " "@ + e.ip@ + " "@ + e.url@
            + " "@ + e.ua@ + "\n"@
    }
}

/// `(none)` for an empty section, else its lines.
pub open spec fn section_body(empty: bool, lines: Seq<char>) -> Seq<char> {
    if empty {
        "(none)\n"@
    } else {
        lines
    }
}

/// Subject, recipient, sender, state, time, tags and counters.
pub open spec fn event_log_header(id: Seq<char>, d: MessageDetail) -> Seq<char> {
    "Mandrill message "@ + id + "\n"@ + "subject: "@ + d.subject@ + "\n"@ + "to:      "@ + d.email@
        + "\n"@ + "from:    "@ + d.sender@ + "\n"@ + "state:   "@ + d.state@ + "\n"@ + "ts:      "@
        + int_text(d.ts as int) + " ("@ + short_time_text(d.ts) + ")\n"@ + (if d.tags@.len() > 0 {
        "tags:    "@ + join_text(texts(d.tags@), ", "@) + "\n"@
    } else {
        Seq::empty()
    }) + "opens:   "@ + int_text(d.opens as int) + " · clicks: "@ + int_text(d.clicks as int)
        + "\n"@
}

/// The text of a message's event log: the header, then the SMTP events,
/// the opens and the clicks, one line each.
pub open spec fn event_log_body(id: Seq<char>, d: MessageDetail) -> Seq<char> {
    event_log_header(id, d) + "\n── SMTP events ──\n"@ + section_body(
        d.smtp_events@.len() == 0,
        smtp_lines(d.smtp_events@),
    ) + "\n── opens ──\n"@ + section_body(d.opens_detail@.len() == 0, open_lines(d.opens_detail@))
        + "\n── clicks ──\n"@ + section_body(
        d.clicks_detail@.len() == 0,
        click_lines(d.clicks_detail@),
    )
}

fn header_text(id: &str, d: &MessageDetail) -> (r: String)
    ensures
        r@ == event_log_header(id@, *d),
{
    let mut b = String::from_str("Mandrill message ");
    b.append(id);
    b.append("\n");
    b.append("subject: ");
    b.append(d.subject.as_str());
    b.append("\n");
    b.append("to:      ");
    b.append(d.email.as_str());
    b.append("\n");
    b.append("from:    ");
    b.append(d.sender.as_str());
    b.append("\n");
    b.append("state:   ");
    b.append(d.state.as_str());
    b.append("\n");
    b.append("ts:      ");
    let ts = i64_text(d.ts);
    b.append(ts.as_str());
    b.append(" (");
    let st = short_time(d.ts);
    b.append(st.as_str());
    b.append(")\n");
    if d.tags.len() > 0 {
        b.append("tags:    ");
        let tags = join(&d.tags, ", ");
        b.append(tags.as_str());
        b.append("\n");
    }
    b.append("opens:   ");
    let o = i64_text(d.opens);
    b.append(o.as_str());
    b.append(" · clicks: ");
    let c = i64_text(d.clicks);
    b.append(c.as_str());
    b.append("\n");
    b
}

fn smtp_text(evs: &Vec<SmtpEvent>) -> (r: String)
    ensures
        r@ == smtp_lines(evs@),
{
    let mut b = String::new();
    let n = evs.len();
    for i in 0..n
        invariant
            n == evs@.len(),
            b@ == smtp_lines(evs@.take(i as int)),
    {
        assert(evs@.take(i + 1).drop_last() =~= evs@.take(i as int));
        let e = &evs[i];
        b.append("  ");
        let t = short_time(e.ts);
        b.append(t.as_str());
        b.append(" [");
        b.append(e.event_type.as_str());
        b.append("] ");
        b.append(e.diag.as_str());
        b.append("\n");
    }
    assert(evs@.take(n as int) =~= evs@);
    b
}

fn open_text(evs: &Vec<OpenEvent>) -> (r: String)
    ensures
        r@ == open_lines(evs@),
{
    let mut b = String::new();
    let n = evs.len();
    for i in 0..n
        invariant
            n == evs@.len(),
            b@ == open_lines(evs@.take(i as int)),
    {
        assert(evs@.take(i + 1).drop_last() =~= evs@.take(i as int));
        let e = &evs[i];
        b.append("  ");
        let t = short_time(e.ts);
        b.append(t.as_str());
        b.append(" ");
        b.append(e.ip.as_str());
        b.append(" ");
        b.append(e.ua.as_str());
        b.append("\n");
    }
    assert(evs@.take(n as int) =~= evs@);
    b
}

fn click_text(evs: &Vec<ClickEvent>) -> (r: String)
    ensures
        r@ == click_lines(evs@),
{
    let mut b = String::new();
    let n = evs.len();
    for i in 0..n
        invariant
            n == evs@.len(),
            b@ == click_lines(evs@.take(i as int)),
    {
        assert(evs@.take(i + 1).drop_last() =~= evs@.take(i as int));
        let e = &evs[i];
        b.append("  ");
        let t = short_time(e.ts);
        b.append(t.as_str());
        b.append(" ");
        b.append(e.ip.as_str());
        b.append(" ");
        b.append(e.url.as_str());
        b.append(" ");
        b.append(e.ua.as_str());
        b.append("\n");
    }
    assert(evs@.take(n as int) =~= evs@);
    b
}

/// The event log of message `id`, as written to the scratch file.
pub fn event_log_text(id: &str, detail: &MessageDetail) -> (r: String)
    ensures
        r@ == event_log_body(id@, *detail),
{
    let mut buf = header_text(id, detail);
    buf.append("\n── SMTP events ──\n");
    if detail.smtp_events.len() == 0 {
        buf.append("(none)\n");
    } else {
        let s = smtp_text(&detail.smtp_events);
        buf.append(s.as_str());
    }
    buf.append("\n── opens ──\n");
    if detail.opens_detail.len() == 0 {
        buf.append("(none)\n");
    } else {
        let s = open_text(&detail.opens_detail);
        buf.append(s.as_str());
    }
    buf.append("\n── clicks ──\n");
    if detail.clicks_detail.len() == 0 {
        buf.append("(none)\n");
    } else {
        let s = click_text(&detail.clicks_detail);
        buf.append(s.as_str());
    }
    buf
}

/// Name of the scratch file that holds the event log of message `id`.
pub fn event_log_file_name(id: &str) -> (r: String)
    ensures
        r@ == "mnml-msg-mandrill-"@ + id@ + ".txt"@,
{
    let mut r = String::from_str("mnml-msg-mandrill-");
    r.append(id);
    r.append(".txt");
    r
}

// ── Laws ─────────────────────────────────────────────────────────

/// A configuration that `validate` accepts always opens: `App::new`'s
/// precondition holds and every tab resolves.
pub proof fn law_valid_config_opens(cfg: Config)
    requires
        config_valid(cfg),
    ensures
        cfg.tabs@.len() > 0,
        all_kinds_known(cfg.tabs@),
{
}

/// Moving the cursor keeps it on the list.
pub proof fn law_moved_selection_in_range(selected: usize, delta: isize, count: nat)
    requires
        count > 0,
    ensures
        0 <= moved_selection(selected, delta, count) < count,
{
}

/// Moving by zero leaves the cursor where it is.
pub proof fn law_move_by_zero(selected: usize, count: nat)
    requires
        selected < count,
    ensures
        moved_selection(selected, 0, count) == selected,
{
}

/// A move that stays on the list is undone by the opposite move.
pub proof fn law_move_undone(selected: usize, delta: isize, count: nat)
    requires
        selected < count,
        count <= usize::MAX,
        0 <= selected + delta < count,
        delta != isize::MIN,
    ensures
        moved_selection(moved_selection(selected, delta, count) as usize, (-delta) as isize, count)
            == selected,
{
}

/// A reload keeps the cursor on the new list (at 0 when it is empty).
pub proof fn law_reload_selection_in_range(old_selected: usize, count: nat)
    ensures
        count == 0 ==> clamped_selection(old_selected, count) == 0,
        count > 0 ==> 0 <= clamped_selection(old_selected, count) < count,
        old_selected < count ==> clamped_selection(old_selected, count) == old_selected,
{
}


/// Each tab kind is loaded as the list of the same name.
pub proof fn law_kind_names_its_list(kind: Seq<char>)
    ensures
        kind == "messages"@ ==> fetch_kind_of(kind) == FetchKind::Messages,
        kind == "templates"@ ==> fetch_kind_of(kind) == FetchKind::Templates,
        kind == "tags"@ ==> fetch_kind_of(kind) == FetchKind::Tags,
        kind == "webhooks"@ ==> fetch_kind_of(kind) == FetchKind::Webhooks,
{
    reveal_strlit("messages");
    reveal_strlit("templates");
    reveal_strlit("tags");
    reveal_strlit("webhooks");
    assert("templates"@.len() != "messages"@.len());
    assert("tags"@.len() != "messages"@.len());
    assert("tags"@.len() != "templates"@.len());
    assert("webhooks"@[0] != "messages"@[0]);
    assert("webhooks"@.len() != "templates"@.len());
    assert("webhooks"@.len() != "tags"@.len());
}

/// In a well-formed state a tab holds only items of its own kind: a
/// messages tab only messages, a templates tab only templates, a tags
/// tab only tags, a webhooks tab only webhooks.
pub proof fn law_tab_holds_its_kind(app: App, i: int, j: int)
    requires
        app.wf(),
        0 <= i < app.tabs@.len(),
        0 <= j < app.tabs@[i].data.items@.len(),
    ensures
        app.tabs@[i].spec.kind@ == "messages"@ ==> app.tabs@[i].data.items@[j] is Message,
        app.tabs@[i].spec.kind@ == "templates"@ ==> app.tabs@[i].data.items@[j] is Template,
        app.tabs@[i].spec.kind@ == "tags"@ ==> app.tabs@[i].data.items@[j] is Tag,
        app.tabs@[i].spec.kind@ == "webhooks"@ ==> app.tabs@[i].data.items@[j] is Webhook,
{
    assert(tab_wf(app.tabs@[i]));
    law_kind_names_its_list(app.tabs@[i].spec.kind@);
    assert(item_kind(app.tabs@[i].data.items@[j]) == fetch_kind_of(app.tabs@[i].spec.kind@));
}

/// `y` copies the item's own identifier: a message's ID, a template's
/// slug, a tag's name, a webhook's URL.
pub proof fn law_yank_copies_identifier(item: Item)
    ensures
        item matches Item::Message(m) ==> yank_text(item) == m.id@,
        item matches Item::Template(t) ==> yank_text(item) == t.slug@,
        item matches Item::Tag(t) ==> yank_text(item) == t.tag@,
        item matches Item::Webhook(w) ==> yank_text(item) == w.url@,
{
}

/// The console page of a template is the template-code page of its
/// percent-encoded slug, and two templates share a page exactly when
/// they share a slug.
pub proof fn law_template_console_page(a: Template, b: Template)
    ensures
        console_url(Item::Template(a)) == "https://mandrillapp.com/templates/code?id="@
            + url_encoded(encode_utf8(a.slug@)),
        console_url(Item::Template(a)) == console_url(Item::Template(b)) <==> a.slug@ == b.slug@,
{
    let p = "https://mandrillapp.com/templates/code?id="@;
    let ua = console_url(Item::Template(a));
    let ub = console_url(Item::Template(b));
    if ua == ub {
        assert(url_encoded(encode_utf8(a.slug@)) =~= ua.subrange(p.len() as int, ua.len() as int));
        assert(url_encoded(encode_utf8(b.slug@)) =~= ub.subrange(p.len() as int, ub.len() as int));
        law_urlencode_injective(a.slug@, b.slug@);
    }
}

/// The console page of a tag is the tag-info page of its percent-encoded
/// name, and two tags share a page exactly when they share a name.
pub proof fn law_tag_console_page(a: Tag, b: Tag)
    ensures
        console_url(Item::Tag(a)) == "https://mandrillapp.com/tags/info?tag="@ + url_encoded(
            encode_utf8(a.tag@),
        ),
        console_url(Item::Tag(a)) == console_url(Item::Tag(b)) <==> a.tag@ == b.tag@,
{
    let p = "https://mandrillapp.com/tags/info?tag="@;
    let ua = console_url(Item::Tag(a));
    let ub = console_url(Item::Tag(b));
    if ua == ub {
        assert(url_encoded(encode_utf8(a.tag@)) =~= ua.subrange(p.len() as int, ua.len() as int));
        assert(url_encoded(encode_utf8(b.tag@)) =~= ub.subrange(p.len() as int, ub.len() as int));
        law_urlencode_injective(a.tag@, b.tag@);
    }
}

/// A template is listed by its display name; its slug stands in only
/// when the name is empty.
pub proof fn law_template_label(t: Template)
    ensures
        t.name@.len() > 0 ==> primary_label_text(Item::Template(t)) == t.name@,
        t.name@.len() == 0 ==> primary_label_text(Item::Template(t)) == t.slug@,
{
}


/// A message's console page is its activity-details page, and two
/// messages share a page exactly when they share an ID; every webhook
/// opens the webhook settings page.
pub proof fn law_message_and_webhook_console_pages(a: Message, b: Message, w: Webhook)
    ensures
        console_url(Item::Message(a)) == "https://mandrillapp.com/activity?details="@ + a.id@,
        console_url(Item::Message(a)) == console_url(Item::Message(b)) <==> a.id@ == b.id@,
        console_url(Item::Webhook(w)) == "https://mandrillapp.com/settings/webhooks"@,
{
    let p = "https://mandrillapp.com/activity?details="@;
    let ua = console_url(Item::Message(a));
    let ub = console_url(Item::Message(b));
    if ua == ub {
        assert(a.id@ =~= ua.subrange(p.len() as int, ua.len() as int));
        assert(b.id@ =~= ub.subrange(p.len() as int, ub.len() as int));
    }
}

/// A message is listed by its subject (`(no subject)` when it has none),
/// a tag by its name, a webhook by its URL.
pub proof fn law_item_labels(m: Message, t: Tag, w: Webhook)
    ensures
        m.subject@.len() > 0 ==> primary_label_text(Item::Message(m)) == m.subject@,
        m.subject@.len() == 0 ==> primary_label_text(Item::Message(m)) == "(no subject)"@,
        primary_label_text(Item::Tag(t)) == t.tag@,
        primary_label_text(Item::Webhook(w)) == w.url@,
{
}

} // verus!
