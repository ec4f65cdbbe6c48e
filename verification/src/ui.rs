//! What the screen shows, computed from the state: tab labels, the
//! scrolled window of the list, row texts, colour cues and the rows of
//! the detail panel. Drawing them is the front end's job.

use vstd::prelude::*;
use crate::app::{
    Item, ItemsTab, TabState, primary_label_text, secondary_label_text,
};
use crate::config::known_kind;
use crate::mandrill::{
    Template, display_subject_of, publish_state_of, opt_text, short_subject_of, key_tail_text,
};
use crate::text::{chars_of, first_lines_of, first_lines, push_char, nat_text, int_text, u64_text, i64_text, join, join_text, texts, str_eq};

verus! {

// ── Text fitting ─────────────────────────────────────────────────

/// `s` when it has at most `max` characters, else its first `max - 1`
/// characters (none when `max` is 0) followed by `…`.
pub open spec fn truncated_text(s: Seq<char>, max: nat) -> Seq<char> {
    if s.len() <= max {
        s
    } else {
        s.take(if max == 0 { 0 } else { max - 1 }).push('…')
    }
}

fn string_of(v: &Vec<char>, n: usize) -> (r: String)
    requires
        n <= v@.len(),
    ensures
        r@ == v@.take(n as int),
{
    let mut r = String::new();
    for i in 0..n
        invariant
            n <= v@.len(),
            r@ == v@.take(i as int),
    {
        assert(v@.take(i + 1) =~= v@.take(i as int).push(v@[i as int]));
        push_char(&mut r, v[i]);
    }
    r
}

/// Fits `s` into `max` characters, marking a cut with `…`.
pub fn truncate(s: &str, max: usize) -> (r: String)
    ensures
        r@ == truncated_text(s@, max as nat),
{
    let cs = chars_of(s);
    if cs.len() <= max {
        assert(cs@.take(cs@.len() as int) =~= cs@);
        string_of(&cs, cs.len())
    } else {
        let keep = if max == 0 { 0 } else { max - 1 };
        let mut r = string_of(&cs, keep);
        push_char(&mut r, '…');
        r
    }
}

/// `s` followed by spaces up to `width` characters (Rust's `{:<width}`).
pub open spec fn padded_text(s: Seq<char>, width: nat) -> Seq<char> {
    if s.len() >= width {
        s
    } else {
        s + Seq::new((width - s.len()) as nat, |i: int| ' ')
    }
}

fn pad_right(s: &str, width: usize) -> (r: String)
    ensures
        r@ == padded_text(s@, width as nat),
{
    let mut r = String::from_str(s);
    let n = s.unicode_len();
    if n < width {
        let mut k = n;
        while k < width
            invariant
                n <= k <= width,
                n == s@.len(),
                r@ == s@ + Seq::new((k - n) as nat, |i: int| ' '),
            decreases width - k,
        {
            push_char(&mut r, ' ');
            k = k + 1;
            assert(r@ =~= s@ + Seq::new((k - n) as nat, |i: int| ' '));
        }
    }
    r
}

// ── The list ─────────────────────────────────────────────────────

/// First row shown when `body_rows` rows fit: 0 when the whole list
/// fits, else the cursor centred, held so that the window stays full.
pub open spec fn window_start(total: nat, selected: nat, body_rows: nat) -> nat {
    if total <= body_rows {
        0
    } else {
        let half = body_rows / 2;
        let lo: nat = if selected >= half { (selected - half) as nat } else { 0 };
        if lo <= total - body_rows { lo } else { (total - body_rows) as nat }
    }
}

/// The first list row on screen.
pub fn list_window_start(total: usize, selected: usize, body_rows: usize) -> (r: usize)
    ensures
        r == window_start(total as nat, selected as nat, body_rows as nat),
{
    if total <= body_rows {
        0
    } else {
        let half = body_rows / 2;
        let lo = if selected >= half { selected - half } else { 0 };
        if lo <= total - body_rows { lo } else { total - body_rows }
    }
}

/// The scrolled window always shows the cursor's row, when one row or
/// more fits.
pub proof fn law_window_shows_cursor(total: nat, selected: nat, body_rows: nat)
    requires
        selected < total,
        body_rows > 0,
    ensures
        window_start(total, selected, body_rows) <= selected,
        selected < window_start(total, selected, body_rows) + body_rows,
        window_start(total, selected, body_rows) + body_rows <= total || window_start(
            total,
            selected,
            body_rows,
        ) == 0,
{
}

/// Count badge of a tab: `(…)` while loading, `(err)` after an error,
/// `(N+)` when the list was capped, else `(N)`.
pub open spec fn badge_text(d: ItemsTab) -> Seq<char> {
    if d.loading {
        " (…)"@
    } else if d.last_error is Some {
        " (err)"@
    } else if d.truncated {
        " ("@ + nat_text(d.items@.len()) + "+)"@
    } else {
        " ("@ + nat_text(d.items@.len()) + ")"@
    }
}

pub fn tab_badge(d: &ItemsTab) -> (r: String)
    ensures
        r@ == badge_text(*d),
{
    if d.loading {
        String::from_str(" (…)")
    } else if d.last_error.is_some() {
        String::from_str(" (err)")
    } else {
        let mut r = String::from_str(" (");
        let n = u64_text(d.items.len() as u64);
        r.append(n.as_str());
        if d.truncated {
            r.append("+)");
        } else {
            r.append(")");
        }
        r
    }
}

/// `N.name (badge)` for tab number `index` (from 0).
pub open spec fn tab_label_text(index: nat, t: TabState) -> Seq<char> {
    nat_text(index + 1) + "."@ + t.name@ + badge_text(t.data)
}

pub fn tab_label(index: usize, t: &TabState) -> (r: String)
    requires
        index < usize::MAX,
    ensures
        r@ == tab_label_text(index as nat, *t),
{
    let mut r = u64_text((index + 1) as u64);
    r.append(".");
    r.append(t.name.as_str());
    let b = tab_badge(&t.data);
    r.append(b.as_str());
    r
}

/// Title of the list panel: the kind and the count.
pub open spec fn list_title_text(kind: Seq<char>, total: nat) -> Seq<char> {
    " "@ + (if known_kind(kind) { kind } else { "items"@ }) + " ("@ + nat_text(total) + ") "@
}

pub fn list_title(kind: &str, total: usize) -> (r: String)
    ensures
        r@ == list_title_text(kind@, total as nat),
{
    let mut r = String::from_str(" ");
    if crate::config::is_known_kind(kind) {
        r.append(kind);
    } else {
        r.append("items");
    }
    r.append(" (");
    let n = u64_text(total as u64);
    r.append(n.as_str());
    r.append(") ");
    r
}

/// What the list panel shows in place of rows: the error of the last
/// load, else `(loading…)` or `(none)` while there are no items; `None`
/// when the rows are shown.
pub open spec fn list_placeholder_text(d: ItemsTab) -> Option<Seq<char>> {
    match d.last_error {
        Some(e) => Some("error: "@ + e@),
        None => if d.items@.len() == 0 {
            Some(if d.loading { "(loading…)"@ } else { "(none)"@ })
        } else {
            None
        },
    }
}

pub fn list_placeholder(d: &ItemsTab) -> (r: Option<String>)
    ensures
        match r {
            Some(t) => list_placeholder_text(*d) == Some(t@),
            None => list_placeholder_text(*d) is None,
        },
{
    match &d.last_error {
        Some(e) => {
            let mut r = String::from_str("error: ");
            r.append(e.as_str());
            Some(r)
        },
        None => if d.items.len() == 0 {
            if d.loading {
                Some(String::from_str("(loading…)"))
            } else {
                Some(String::from_str("(none)"))
            }
        } else {
            None
        },
    }
}

/// What the detail panel shows when no item is focused.
pub open spec fn detail_placeholder_text() -> Seq<char> {
    "(no item selected)"@
}

pub fn detail_placeholder(item: Option<&Item>) -> (r: Option<String>)
    ensures
        match item {
            Some(_) => r is None,
            None => r matches Some(t) && t@ == detail_placeholder_text(),
        },
{
    match item {
        Some(_) => None,
        None => Some(String::from_str("(no item selected)")),
    }
}

/// One list row: a cursor mark, the primary label fitted into 32
/// columns, two spaces, the secondary label.
pub open spec fn list_row_text(item: Item, is_selected: bool, bounce_pct: Seq<char>) -> Seq<char> {
    (if is_selected { "▸ "@ } else { "  "@ }) + padded_text(
        truncated_text(primary_label_text(item), 32),
        32,
    ) + "  "@ + secondary_label_text(item, bounce_pct)
}

pub fn list_row(item: &Item, is_selected: bool, bounce_pct: &str) -> (r: String)
    ensures
        r@ == list_row_text(*item, is_selected, bounce_pct@),
{
    let mut r = if is_selected { String::from_str("▸ ") } else { String::from_str("  ") };
    let p = item.primary_label();
    let t = truncate(p.as_str(), 32);
    let padded = pad_right(t.as_str(), 32);
    r.append(padded.as_str());
    r.append("  ");
    let s = item.secondary_label(bounce_pct);
    r.append(s.as_str());
    r
}

// ── Colour cues ──────────────────────────────────────────────────

/// The colour cue of a row.
#[derive(Debug, Clone, Copy, PartialEq, Eq, Structural)]
pub enum Tone {
    Green,
    Yellow,
    Red,
    Gray,
}

/// Where a tag's bounce rate stands: at least 5%, at least 2%, or less.
#[derive(Debug, Clone, Copy, PartialEq, Eq, Structural)]
pub enum BounceBand {
    High,
    Elevated,
    Normal,
}

pub open spec fn message_tone_of(state: Seq<char>) -> Tone {
    if state == "delivered"@ {
        Tone::Green
    } else if state == "queued"@ || state == "scheduled"@ || state == "deferred"@ {
        Tone::Yellow
    } else if state == "bounced"@ || state == "soft-bounced"@ || state == "rejected"@ || state
        == "spam"@ || state == "unsub"@ || state == "invalid"@ {
        Tone::Red
    } else {
        Tone::Gray
    }
}

/// Delivery states: delivered green; queued, scheduled, deferred yellow;
/// bounced, soft-bounced, rejected, spam, unsub, invalid red; else gray.
pub fn message_tone(state: &str) -> (r: Tone)
    ensures
        r == message_tone_of(state@),
{
    if str_eq(state, "delivered") {
        Tone::Green
    } else if str_eq(state, "queued") || str_eq(state, "scheduled") || str_eq(state, "deferred") {
        Tone::Yellow
    } else if str_eq(state, "bounced") || str_eq(state, "soft-bounced") || str_eq(state, "rejected")
        || str_eq(state, "spam") || str_eq(state, "unsub") || str_eq(state, "invalid") {
        Tone::Red
    } else {
        Tone::Gray
    }
}

pub open spec fn item_tone_of(item: Item, band: BounceBand) -> Tone {
    match item {
        Item::Message(m) => message_tone_of(m.state@),
        Item::Template(t) => if publish_state_of(opt_text(t.published_at)) == "published"@ {
            Tone::Green
        } else {
            Tone::Gray
        },
        Item::Tag(_) => match band {
            BounceBand::High => Tone::Red,
            BounceBand::Elevated => Tone::Yellow,
            BounceBand::Normal => Tone::Gray,
        },
        Item::Webhook(w) => match w.last_error {
            Some(e) if e@.len() > 0 => Tone::Red,
            _ => Tone::Gray,
        },
    }
}

/// The colour of a row; `band` is the bounce band of a tag, ignored for
/// other items.
pub fn item_tone(item: &Item, band: BounceBand) -> (r: Tone)
    ensures
        r == item_tone_of(*item, band),
{
    match item {
        Item::Message(m) => message_tone(m.state.as_str()),
        Item::Template(t) => {
            if str_eq(t.publish_state(), "published") {
                Tone::Green
            } else {
                Tone::Gray
            }
        },
        Item::Tag(_) => match band {
            BounceBand::High => Tone::Red,
            BounceBand::Elevated => Tone::Yellow,
            BounceBand::Normal => Tone::Gray,
        },
        Item::Webhook(w) => match &w.last_error {
            Some(e) if !e.as_str().is_empty() => Tone::Red,
            _ => Tone::Gray,
        },
    }
}

// ── The detail panel ─────────────────────────────────────────────

/// How a row of the detail panel is drawn.
#[derive(Debug, Clone, Copy, PartialEq, Eq, Structural)]
pub enum RowKind {
    /// A key and its value.
    Field,
    /// An empty line.
    Blank,
    /// A dimmed hint.
    Note,
    /// A section heading.
    Heading,
    /// A line of the template's HTML.
    Preview,
    /// A webhook's last error.
    Error,
}

/// One row of the detail panel; `key` is empty but for fields.
#[derive(Debug, Clone)]
pub struct DetailRow {
    pub kind: RowKind,
    pub key: String,
    pub text: String,
}

pub open spec fn row_view(r: DetailRow) -> (RowKind, Seq<char>, Seq<char>) {
    (r.kind, r.key@, r.text@)
}

pub open spec fn rows_view(v: Seq<DetailRow>) -> Seq<(RowKind, Seq<char>, Seq<char>)> {
    v.map_values(|r: DetailRow| row_view(r))
}

pub open spec fn field(key: Seq<char>, value: Seq<char>) -> (RowKind, Seq<char>, Seq<char>) {
    (RowKind::Field, key, value)
}

pub open spec fn plain(kind: RowKind, text: Seq<char>) -> (RowKind, Seq<char>, Seq<char>) {
    (kind, Seq::empty(), text)
}

pub open spec fn opt_field(key: Seq<char>, value: Option<String>) -> Seq<(RowKind, Seq<char>, Seq<char>)> {
    match value {
        Some(v) => seq![field(key, v@)],
        None => Seq::empty(),
    }
}

fn push_field(rows: &mut Vec<DetailRow>, key: &str, value: String)
    ensures
        rows_view(final(rows)@) == rows_view(old(rows)@).push(field(key@, value@)),
{
    rows.push(DetailRow { kind: RowKind::Field, key: String::from_str(key), text: value });
    assert(rows_view(rows@) =~= rows_view(old(rows)@).push(field(key@, value@)));
}

fn push_plain(rows: &mut Vec<DetailRow>, kind: RowKind, text: String)
    ensures
        rows_view(final(rows)@) == rows_view(old(rows)@).push(plain(kind, text@)),
{
    rows.push(DetailRow { kind, key: String::new(), text });
    assert(rows_view(rows@) =~= rows_view(old(rows)@).push(plain(kind, text@)));
}

fn push_opt_field(rows: &mut Vec<DetailRow>, key: &str, value: &Option<String>)
    ensures
        rows_view(final(rows)@) == rows_view(old(rows)@) + opt_field(key@, *value),
{
    match value {
        Some(v) => push_field(rows, key, v.clone()),
        None => {
            assert(rows_view(rows@) =~= rows_view(rows@) + Seq::<(RowKind, Seq<char>, Seq<char>)>::empty());
        },
    }
}

pub open spec fn message_rows(m: crate::mandrill::Message) -> Seq<(RowKind, Seq<char>, Seq<char>)> {
    seq![
        field("Subject"@, short_subject_of(m.subject@)),
        field("ID"@, m.id@),
        field("State"@, m.state@),
        field("To"@, m.email@),
        field("From"@, m.sender@),
        field("Sent"@, int_text(m.ts as int)),
        field("Opens"@, int_text(m.opens as int)),
        field("Clicks"@, int_text(m.clicks as int)),
    ] + (if m.tags@.len() > 0 {
        seq![field("Tags"@, join_text(texts(m.tags@), ", "@))]
    } else {
        Seq::empty()
    }) + seq![plain(RowKind::Blank, Seq::empty()), plain(RowKind::Note, " Press L for full event log "@)]
}

/// The HTML shown for a template: the published code when non-empty,
/// else the draft code, else nothing.
pub open spec fn preview_source(t: Template) -> Seq<char> {
    match t.publish_code {
        Some(p) if p@.len() > 0 => p@,
        _ => match t.code {
            Some(c) => c@,
            None => Seq::empty(),
        },
    }
}

pub open spec fn preview_rows(lines: Seq<Seq<char>>) -> Seq<(RowKind, Seq<char>, Seq<char>)>
    decreases lines.len(),
{
    if lines.len() == 0 {
        Seq::empty()
    } else {
        preview_rows(lines.drop_last()).push(plain(RowKind::Preview, " "@ + truncated_text(lines.last(), 80)))
    }
}

pub open spec fn template_field_rows(t: Template) -> Seq<(RowKind, Seq<char>, Seq<char>)> {
    seq![
        field("Name"@, t.name@),
        field("Slug"@, t.slug@),
        field("Subject"@, display_subject_of(opt_text(t.publish_subject), opt_text(t.subject))),
        field("State"@, publish_state_of(opt_text(t.published_at))),
    ] + opt_field("Published"@, t.published_at) + opt_field("Created"@, t.created_at) + opt_field(
        "Updated"@,
        t.updated_at,
    ) + opt_field("From email"@, t.from_email) + (if t.labels@.len() > 0 {
        seq![field("Labels"@, join_text(texts(t.labels@), ", "@))]
    } else {
        Seq::empty()
    })
}

pub open spec fn template_preview_rows(t: Template) -> Seq<(RowKind, Seq<char>, Seq<char>)> {
    if preview_source(t).len() > 0 {
        seq![
            plain(RowKind::Blank, Seq::empty()),
            plain(RowKind::Heading, " HTML preview (first 8 lines) "@),
        ] + preview_rows(first_lines(preview_source(t), 8))
    } else {
        Seq::empty()
    }
}

pub open spec fn template_rows(t: Template) -> Seq<(RowKind, Seq<char>, Seq<char>)> {
    template_field_rows(t) + template_preview_rows(t)
}

pub open spec fn tag_rows(t: crate::mandrill::Tag, bounce_pct: Seq<char>) -> Seq<(RowKind, Seq<char>, Seq<char>)> {
    seq![
        field("Tag"@, t.tag@),
        field("Sent"@, int_text(t.sent as int)),
        field("Hard bounces"@, int_text(t.hard_bounces as int)),
        field("Soft bounces"@, int_text(t.soft_bounces as int)),
        field("Rejects"@, int_text(t.rejects as int)),
        field("Complaints"@, int_text(t.complaints as int)),
        field("Unsubs"@, int_text(t.unsubs as int)),
        field("Opens"@, int_text(t.opens as int)),
        field("Unique opens"@, int_text(t.unique_opens as int)),
        field("Clicks"@, int_text(t.clicks as int)),
        field("Unique clicks"@, int_text(t.unique_clicks as int)),
        field("Reputation"@, int_text(t.reputation as int)),
        field("Bounce rate"@, bounce_pct + "%"@),
    ]
}

pub open spec fn webhook_rows(w: crate::mandrill::Webhook) -> Seq<(RowKind, Seq<char>, Seq<char>)> {
    seq![field("ID"@, int_text(w.id as int)), field("URL"@, w.url@)] + opt_field(
        "Description"@,
        w.description,
    ) + seq![
        field("Auth key"@, key_tail_text(w.auth_key@)),
        field("Events"@, join_text(texts(w.events@), ", "@)),
        field("Batches sent"@, int_text(w.batches_sent as int)),
        field("Events sent"@, int_text(w.events_sent as int)),
    ] + opt_field("Created"@, w.created_at) + opt_field("Last sent"@, w.last_sent_at) + (match w.last_error {
        Some(e) if e@.len() > 0 => seq![
            plain(RowKind::Blank, Seq::empty()),
            plain(RowKind::Heading, " Last error "@),
            plain(RowKind::Error, " "@ + e@),
        ],
        _ => Seq::empty(),
    })
}

/// The rows of the detail panel for an item; `bounce_pct` is a tag's
/// bounce rate in percent with two decimals.
pub open spec fn detail_rows_of(item: Item, bounce_pct: Seq<char>) -> Seq<(RowKind, Seq<char>, Seq<char>)> {
    match item {
        Item::Message(m) => message_rows(m),
        Item::Template(t) => template_rows(t),
        Item::Tag(t) => tag_rows(t, bounce_pct),
        Item::Webhook(w) => webhook_rows(w),
    }
}

fn message_detail(m: &crate::mandrill::Message) -> (r: Vec<DetailRow>)
    ensures
        rows_view(r@) == message_rows(*m),
{
    let mut rows: Vec<DetailRow> = Vec::new();
    push_field(&mut rows, "Subject", String::from_str(m.short_subject()));
    push_field(&mut rows, "ID", m.id.clone());
    push_field(&mut rows, "State", m.state.clone());
    push_field(&mut rows, "To", m.email.clone());
    push_field(&mut rows, "From", m.sender.clone());
    push_field(&mut rows, "Sent", i64_text(m.ts));
    push_field(&mut rows, "Opens", i64_text(m.opens));
    push_field(&mut rows, "Clicks", i64_text(m.clicks));
    if m.tags.len() > 0 {
        push_field(&mut rows, "Tags", join(&m.tags, ", "));
    }
    push_plain(&mut rows, RowKind::Blank, String::new());
    push_plain(&mut rows, RowKind::Note, String::from_str(" Press L for full event log "));
    assert(rows_view(rows@) =~= message_rows(*m));
    rows
}

fn template_fields(t: &Template) -> (r: Vec<DetailRow>)
    ensures
        rows_view(r@) == template_field_rows(*t),
{
    let mut rows: Vec<DetailRow> = Vec::new();
    push_field(&mut rows, "Name", t.name.clone());
    push_field(&mut rows, "Slug", t.slug.clone());
    push_field(&mut rows, "Subject", String::from_str(t.display_subject()));
    push_field(&mut rows, "State", String::from_str(t.publish_state()));
    push_opt_field(&mut rows, "Published", &t.published_at);
    push_opt_field(&mut rows, "Created", &t.created_at);
    push_opt_field(&mut rows, "Updated", &t.updated_at);
    push_opt_field(&mut rows, "From email", &t.from_email);
    if t.labels.len() > 0 {
        push_field(&mut rows, "Labels", join(&t.labels, ", "));
    }
    assert(rows_view(rows@) =~= template_field_rows(*t));
    rows
}

fn template_preview(t: &Template) -> (r: Vec<DetailRow>)
    ensures
        rows_view(r@) == template_preview_rows(*t),
{
    let mut rows: Vec<DetailRow> = Vec::new();
    let preview: &str = match &t.publish_code {
        Some(p) if !p.as_str().is_empty() => p.as_str(),
        _ => match &t.code {
            Some(c) => c.as_str(),
            None => {
                proof {
                    reveal_strlit("");
                }
                ""
            },
        },
    };
    assert(preview@ == preview_source(*t));
    if !preview.is_empty() {
        push_plain(&mut rows, RowKind::Blank, String::new());
        push_plain(&mut rows, RowKind::Heading, String::from_str(" HTML preview (first 8 lines) "));
        let ghost before = rows_view(rows@);
        let lines = first_lines_of(preview, 8);
        let n = lines.len();
        for i in 0..n
            invariant
                n == lines@.len(),
                rows_view(rows@) == before + preview_rows(texts(lines@).take(i as int)),
        {
            assert(texts(lines@).take(i + 1).drop_last() =~= texts(lines@).take(i as int));
            let mut text = String::from_str(" ");
            let cut = truncate(lines[i].as_str(), 80);
            text.append(cut.as_str());
            push_plain(&mut rows, RowKind::Preview, text);
        }
        assert(texts(lines@).take(n as int) =~= texts(lines@));
    } else {
        assert(rows_view(rows@) =~= Seq::<(RowKind, Seq<char>, Seq<char>)>::empty());
    }
    rows
}

fn template_detail(t: &Template) -> (r: Vec<DetailRow>)
    ensures
        rows_view(r@) == template_rows(*t),
{
    let mut rows = template_fields(t);
    let mut more = template_preview(t);
    let ghost a = rows@;
    let ghost b = more@;
    rows.append(&mut more);
    assert(rows_view(rows@) =~= rows_view(a) + rows_view(b));
    rows
}

fn tag_detail(t: &crate::mandrill::Tag, bounce_pct: &str) -> (r: Vec<DetailRow>)
    ensures
        rows_view(r@) == tag_rows(*t, bounce_pct@),
{
    let mut rows: Vec<DetailRow> = Vec::new();
    push_field(&mut rows, "Tag", t.tag.clone());
    push_field(&mut rows, "Sent", i64_text(t.sent));
    push_field(&mut rows, "Hard bounces", i64_text(t.hard_bounces));
    push_field(&mut rows, "Soft bounces", i64_text(t.soft_bounces));
    push_field(&mut rows, "Rejects", i64_text(t.rejects));
    push_field(&mut rows, "Complaints", i64_text(t.complaints));
    push_field(&mut rows, "Unsubs", i64_text(t.unsubs));
    push_field(&mut rows, "Opens", i64_text(t.opens));
    push_field(&mut rows, "Unique opens", i64_text(t.unique_opens));
    push_field(&mut rows, "Clicks", i64_text(t.clicks));
    push_field(&mut rows, "Unique clicks", i64_text(t.unique_clicks));
    push_field(&mut rows, "Reputation", i64_text(t.reputation));
    let mut pct = String::from_str(bounce_pct);
    pct.append("%");
    push_field(&mut rows, "Bounce rate", pct);
    assert(rows_view(rows@) =~= tag_rows(*t, bounce_pct@));
    rows
}

fn webhook_detail(w: &crate::mandrill::Webhook) -> (r: Vec<DetailRow>)
    ensures
        rows_view(r@) == webhook_rows(*w),
{
    let mut rows: Vec<DetailRow> = Vec::new();
    push_field(&mut rows, "ID", i64_text(w.id));
    push_field(&mut rows, "URL", w.url.clone());
    push_opt_field(&mut rows, "Description", &w.description);
    push_field(&mut rows, "Auth key", w.auth_key_trailing());
    push_field(&mut rows, "Events", join(&w.events, ", "));
    push_field(&mut rows, "Batches sent", i64_text(w.batches_sent));
    push_field(&mut rows, "Events sent", i64_text(w.events_sent));
    push_opt_field(&mut rows, "Created", &w.created_at);
    push_opt_field(&mut rows, "Last sent", &w.last_sent_at);
    match &w.last_error {
        Some(e) if !e.as_str().is_empty() => {
            push_plain(&mut rows, RowKind::Blank, String::new());
            push_plain(&mut rows, RowKind::Heading, String::from_str(" Last error "));
            let mut text = String::from_str(" ");
            text.append(e.as_str());
            push_plain(&mut rows, RowKind::Error, text);
        },
        _ => {},
    }
    assert(rows_view(rows@) =~= webhook_rows(*w));
    rows
}

/// The rows of the detail panel for the focused item.
pub fn detail_rows(item: &Item, bounce_pct: &str) -> (r: Vec<DetailRow>)
    ensures
        rows_view(r@) == detail_rows_of(*item, bounce_pct@),
{
    match item {
        Item::Message(m) => message_detail(m),
        Item::Template(t) => template_detail(t),
        Item::Tag(t) => tag_detail(t, bounce_pct),
        Item::Webhook(w) => webhook_detail(w),
    }
}

// ── Laws ─────────────────────────────────────────────────────────

/// A fitted text takes at most `max` characters (for `max >= 1`), and a
/// text that already fits is unchanged.
pub proof fn law_truncate_fits(s: Seq<char>, max: nat)
    ensures
        max >= 1 ==> truncated_text(s, max).len() <= max,
        s.len() <= max ==> truncated_text(s, max) == s,
{
}

/// `(N+)` marks exactly the tabs whose list was capped, once loaded.
pub proof fn law_capped_badge(d: ItemsTab)
    requires
        !d.loading,
        d.last_error is None,
    ensures
        d.truncated ==> badge_text(d) == " ("@ + nat_text(d.items@.len()) + "+)"@,
        !d.truncated ==> badge_text(d) == " ("@ + nat_text(d.items@.len()) + ")"@,
        badge_text(d) != " ("@ + nat_text(d.items@.len()) + ")"@ <==> d.truncated,
{
    reveal_strlit("+)");
    reveal_strlit(")");
    let n = nat_text(d.items@.len());
    assert((" ("@ + n + "+)"@).len() != (" ("@ + n + ")"@).len());
}

/// Fitting twice is fitting once.
pub proof fn law_truncate_idempotent(s: Seq<char>, max: nat)
    requires
        max >= 1,
    ensures
        truncated_text(truncated_text(s, max), max) == truncated_text(s, max),
{
}

/// Padding reaches the width and keeps the text in front.
pub proof fn law_padding(s: Seq<char>, width: nat)
    ensures
        padded_text(s, width).len() == (if s.len() >= width { s.len() } else { width }),
        padded_text(s, width).take(s.len() as int) == s,
{
    assert(padded_text(s, width).take(s.len() as int) =~= s);
}


/// Delivery states are colour-coded: `delivered` green; `queued`,
/// `scheduled` and `deferred` yellow; every failure state (`bounced`,
/// `soft-bounced`, `rejected`, `spam`, `unsub`, `invalid`) red; any
/// other state gray.
pub proof fn law_message_tones(state: Seq<char>)
    ensures
        state == "delivered"@ ==> message_tone_of(state) == Tone::Green,
        (state == "queued"@ || state == "scheduled"@ || state == "deferred"@) ==> message_tone_of(
            state,
        ) == Tone::Yellow,
        (state == "bounced"@ || state == "soft-bounced"@ || state == "rejected"@ || state
            == "spam"@ || state == "unsub"@ || state == "invalid"@) ==> message_tone_of(state)
            == Tone::Red,
        !(state == "delivered"@ || state == "queued"@ || state == "scheduled"@ || state
            == "deferred"@ || state == "bounced"@ || state == "soft-bounced"@ || state
            == "rejected"@ || state == "spam"@ || state == "unsub"@ || state == "invalid"@)
            ==> message_tone_of(state) == Tone::Gray,
{
    reveal_strlit("delivered");
    reveal_strlit("queued");
    reveal_strlit("scheduled");
    reveal_strlit("deferred");
    reveal_strlit("bounced");
    reveal_strlit("soft-bounced");
    reveal_strlit("rejected");
    reveal_strlit("spam");
    reveal_strlit("unsub");
    reveal_strlit("invalid");
    assert("queued"@.len() != "delivered"@.len());
    assert("scheduled"@[0] != "delivered"@[0]);
    assert("deferred"@.len() != "delivered"@.len());
    assert("bounced"@.len() != "delivered"@.len());
    assert("soft-bounced"@.len() != "delivered"@.len());
    assert("rejected"@.len() != "delivered"@.len());
    assert("spam"@.len() != "delivered"@.len());
    assert("unsub"@.len() != "delivered"@.len());
    assert("invalid"@.len() != "delivered"@.len());
    assert("bounced"@.len() != "queued"@.len());
    assert("bounced"@.len() != "scheduled"@.len());
    assert("bounced"@.len() != "deferred"@.len());
    assert("soft-bounced"@.len() != "queued"@.len());
    assert("soft-bounced"@.len() != "scheduled"@.len());
    assert("soft-bounced"@.len() != "deferred"@.len());
    assert("rejected"@.len() != "queued"@.len());
    assert("rejected"@.len() != "scheduled"@.len());
    assert("rejected"@[0] != "deferred"@[0]);
    assert("spam"@.len() != "queued"@.len());
    assert("spam"@.len() != "scheduled"@.len());
    assert("spam"@.len() != "deferred"@.len());
    assert("unsub"@.len() != "queued"@.len());
    assert("unsub"@.len() != "scheduled"@.len());
    assert("unsub"@.len() != "deferred"@.len());
    assert("invalid"@.len() != "queued"@.len());
    assert("invalid"@.len() != "scheduled"@.len());
    assert("invalid"@.len() != "deferred"@.len());
}


/// Row colours: a message by its delivery state; a template green
/// exactly when it has a publish date; a tag by its bounce band (high
/// red, elevated yellow, else gray); a webhook red exactly when its last
/// error is non-empty.
pub proof fn law_item_tones(
    m: crate::mandrill::Message,
    t: Template,
    g: crate::mandrill::Tag,
    w: crate::mandrill::Webhook,
    band: BounceBand,
)
    ensures
        item_tone_of(Item::Message(m), band) == message_tone_of(m.state@),
        (item_tone_of(Item::Template(t), band) == Tone::Green) <==> (t.published_at matches Some(
            p,
        ) && p@.len() > 0),
        item_tone_of(Item::Template(t), band) == Tone::Green || item_tone_of(
            Item::Template(t),
            band,
        ) == Tone::Gray,
        band == BounceBand::High ==> item_tone_of(Item::Tag(g), band) == Tone::Red,
        band == BounceBand::Elevated ==> item_tone_of(Item::Tag(g), band) == Tone::Yellow,
        band == BounceBand::Normal ==> item_tone_of(Item::Tag(g), band) == Tone::Gray,
        (item_tone_of(Item::Webhook(w), band) == Tone::Red) <==> (w.last_error matches Some(e)
            && e@.len() > 0),
        item_tone_of(Item::Webhook(w), band) == Tone::Red || item_tone_of(Item::Webhook(w), band)
            == Tone::Gray,
{
    reveal_strlit("published");
    reveal_strlit("draft");
    assert("published"@.len() != "draft"@.len());
}

} // verus!
