//! The Mandrill API data model and the computations made on it: labels,
//! the web-console URLs, the error envelope, and the order in which each
//! list endpoint's results are shown.

use vstd::prelude::*;
use vstd::utf8::{
    encode_utf8, decode_utf8, is_char_boundary, group_utf8_lib,
};
use vstd::string::StringSliceAdditionalSpecFns;
use crate::text::{chars_of, string_from, push_char, digit_char, nat_text, u64_text, str_eq, bytes_le, lemma_bytes_le_total, lemma_bytes_le_trans, slice_le};
use crate::sort::{SortKey, ordered_capped, order_and_cap};

verus! {

broadcast use group_utf8_lib;

/// Hard cap on items rendered per list tab.
pub const LIST_CAP: usize = 500;

/// `/messages/search.json` page size — Mandrill caps at 1000; 100 is
/// plenty for the recent-sends view.
pub const MESSAGES_LIMIT: usize = 100;

/// Resolved auth: the Mandrill API key, sent in every request body.
#[derive(Debug, Clone)]
pub struct Auth {
    pub api_key: String,
}

/// Why no [`Auth`] could be built.
#[derive(Debug, Clone, PartialEq, Eq, Structural)]
pub enum AuthError {
    /// `MANDRILL_API_KEY` is unset or empty.
    MissingKey,
}

impl AuthError {
    /// The message shown to the user.
    pub fn message(&self) -> (r: String)
        ensures
            r@ == auth_error_text(),
    {
        String::from_str("MANDRILL_API_KEY not set — export it from a Mandrill API key (Settings → SMTP & API Info → API Keys)")
    }
}

pub open spec fn auth_error_text() -> Seq<char> {
    "MANDRILL_API_KEY not set — export it from a Mandrill API key (Settings → SMTP & API Info → API Keys)"@
}

pub open spec fn api_base_text() -> Seq<char> {
    "https://mandrillapp.com/api/1.0"@
}

impl Auth {
    /// Builds the auth from the value of `MANDRILL_API_KEY` as read from
    /// the environment; an unset or empty value is refused.
    pub fn from_env_value(value: Option<String>) -> (r: Result<Auth, AuthError>)
        ensures
            match value {
                Some(v) => if v@.len() > 0 {
                    r matches Ok(a) && a.api_key@ == v@
                } else {
                    r == Err::<Auth, AuthError>(AuthError::MissingKey)
                },
                None => r == Err::<Auth, AuthError>(AuthError::MissingKey),
            },
    {
        match value {
            Some(v) => {
                if v.as_str().is_empty() {
                    Err(AuthError::MissingKey)
                } else {
                    Ok(Auth { api_key: v })
                }
            },
            None => Err(AuthError::MissingKey),
        }
    }

    /// Base URL of every endpoint.
    pub fn api_base(&self) -> (r: &'static str)
        ensures
            r@ == api_base_text(),
    {
        "https://mandrillapp.com/api/1.0"
    }
}

/// One result of `/messages/search.json`.
#[derive(Debug, Clone)]
pub struct Message {
    /// Mandrill message ID (e.g. `"abc123def456"`).
    pub id: String,
    pub subject: String,
    /// Recipient address.
    pub email: String,
    /// `sent` / `queued` / `scheduled` / `rejected` / `bounced` /
    /// `soft-bounced` / `spam` / `unsub` / `deferred` / `delivered`.
    pub state: String,
    /// Unix epoch seconds.
    pub ts: i64,
    pub sender: String,
    pub tags: Vec<String>,
    pub opens: i64,
    pub clicks: i64,
}

pub open spec fn no_subject_text() -> Seq<char> {
    "(no subject)"@
}

/// The subject, or `(no subject)` when it is empty.
pub open spec fn short_subject_of(subject: Seq<char>) -> Seq<char> {
    if subject.len() == 0 {
        no_subject_text()
    } else {
        subject
    }
}

impl Message {
    pub fn short_subject(&self) -> (r: &str)
        ensures
            r@ == short_subject_of(self.subject@),
    {
        if self.subject.as_str().is_empty() {
            "(no subject)"
        } else {
            self.subject.as_str()
        }
    }
}

/// One SMTP delivery event of a message.
#[derive(Debug, Clone)]
pub struct SmtpEvent {
    pub ts: i64,
    /// The event type (`type` in the API).
    pub event_type: String,
    pub diag: String,
}

/// One recorded open of a message.
#[derive(Debug, Clone)]
pub struct OpenEvent {
    pub ts: i64,
    pub ip: String,
    pub ua: String,
}

/// One recorded click in a message.
#[derive(Debug, Clone)]
pub struct ClickEvent {
    pub ts: i64,
    pub url: String,
    pub ip: String,
    pub ua: String,
}

/// Full detail for a single message — `/messages/info.json`.
#[derive(Debug, Clone)]
pub struct MessageDetail {
    pub id: String,
    pub subject: String,
    pub email: String,
    pub sender: String,
    pub state: String,
    pub ts: i64,
    pub tags: Vec<String>,
    pub opens: i64,
    pub clicks: i64,
    pub smtp_events: Vec<SmtpEvent>,
    pub opens_detail: Vec<OpenEvent>,
    pub clicks_detail: Vec<ClickEvent>,
    /// The `metadata` object, kept as JSON text.
    pub metadata: String,
    pub subaccount: Option<String>,
}

/// One template of `/templates/list.json`.
#[derive(Debug, Clone)]
pub struct Template {
    pub slug: String,
    pub name: String,
    /// `"sent"` / `"draft"` / `""`.
    pub publish_name: String,
    pub publish_code: Option<String>,
    pub publish_subject: Option<String>,
    pub publish_from_email: Option<String>,
    pub publish_from_name: Option<String>,
    pub publish_text: Option<String>,
    pub published_at: Option<String>,
    pub created_at: Option<String>,
    pub updated_at: Option<String>,
    pub code: Option<String>,
    pub subject: Option<String>,
    pub from_email: Option<String>,
    pub from_name: Option<String>,
    pub text: Option<String>,
    pub labels: Vec<String>,
}

/// Text of an optional string field; `None` when absent.
pub open spec fn opt_text(o: Option<String>) -> Option<Seq<char>> {
    match o {
        Some(s) => Some(s@),
        None => None,
    }
}

/// The published subject when present and non-empty, else the draft
/// subject when present, else empty.
pub open spec fn display_subject_of(publish_subject: Option<Seq<char>>, subject: Option<Seq<char>>) -> Seq<char> {
    match publish_subject {
        Some(p) if p.len() > 0 => p,
        _ => match subject {
            Some(s) => s,
            None => Seq::empty(),
        },
    }
}

/// `published` when `published_at` is present and non-empty, else `draft`.
pub open spec fn publish_state_of(published_at: Option<Seq<char>>) -> Seq<char> {
    match published_at {
        Some(p) if p.len() > 0 => "published"@,
        _ => "draft"@,
    }
}

impl Template {
    /// Best-effort "current subject" — published, else draft, else empty.
    pub fn display_subject(&self) -> (r: &str)
        ensures
            r@ == display_subject_of(opt_text(self.publish_subject), opt_text(self.subject)),
    {
        match &self.publish_subject {
            Some(p) if !p.as_str().is_empty() => p.as_str(),
            _ => match &self.subject {
                Some(s) => s.as_str(),
                None => {
                    proof {
                        reveal_strlit("");
                    }
                    ""
                },
            },
        }
    }

    /// Mandrill marks a published template by setting `published_at`.
    pub fn publish_state(&self) -> (r: &str)
        ensures
            r@ == publish_state_of(opt_text(self.published_at)),
    {
        match &self.published_at {
            Some(p) if !p.as_str().is_empty() => "published",
            _ => "draft",
        }
    }
}

/// Cumulative stats of one tag, from `/tags/list.json`.
#[derive(Debug, Clone)]
pub struct Tag {
    pub tag: String,
    pub reputation: i64,
    pub sent: i64,
    pub hard_bounces: i64,
    pub soft_bounces: i64,
    pub rejects: i64,
    pub complaints: i64,
    pub unsubs: i64,
    pub opens: i64,
    pub clicks: i64,
    pub unique_opens: i64,
    pub unique_clicks: i64,
}

impl Tag {
    /// The bounce rate as a fraction `(bounces, sent)`: hard plus soft
    /// bounces over sends, and `(0, 1)` when nothing was sent.
    pub fn bounce_fraction(&self) -> (r: (i128, i64))
        ensures
            self.sent == 0 ==> r == (0i128, 1i64),
            self.sent != 0 ==> r.0 == self.hard_bounces + self.soft_bounces && r.1 == self.sent,
    {
        if self.sent == 0 {
            (0, 1)
        } else {
            (self.hard_bounces as i128 + self.soft_bounces as i128, self.sent)
        }
    }
}

/// One webhook of `/webhooks/list.json`.
#[derive(Debug, Clone)]
pub struct Webhook {
    pub id: i64,
    pub url: String,
    pub description: Option<String>,
    pub auth_key: String,
    pub events: Vec<String>,
    pub created_at: Option<String>,
    pub last_sent_at: Option<String>,
    pub batches_sent: i64,
    pub events_sent: i64,
    pub last_error: Option<String>,
}

/// `—` for an empty key; the key itself when it has at most four
/// characters; otherwise `…` followed by its last four characters.
pub open spec fn key_tail_text(key: Seq<char>) -> Seq<char> {
    if key.len() == 0 {
        "—"@
    } else if key.len() <= 4 {
        key
    } else {
        "…"@ + key.subrange(key.len() - 4, key.len() as int)
    }
}

impl Webhook {
    /// Last 4 chars of the webhook auth key, or `"—"` when empty.
    pub fn auth_key_trailing(&self) -> (r: String)
        ensures
            r@ == key_tail_text(self.auth_key@),
    {
        let cs = chars_of(self.auth_key.as_str());
        let n = cs.len();
        if n == 0 {
            return String::from_str("—");
        }
        if n <= 4 {
            return self.auth_key.clone();
        }
        let tail = string_from(&cs, n - 4, n);
        let mut r = String::from_str("…");
        r.append(tail.as_str());
        r
    }
}

// ── URL building ─────────────────────────────────────────────────

/// Bytes that stand for themselves in a URL query value.
pub open spec fn unreserved(b: u8) -> bool {
    ||| 65 <= b <= 90
    ||| 97 <= b <= 122
    ||| 48 <= b <= 57
    ||| b == 45 || b == 95 || b == 46 || b == 126
}

/// Upper-case hexadecimal digit for `0 <= d < 16`.
pub open spec fn hex_digit(d: int) -> char {
    if d < 10 {
        digit_char(d)
    } else {
        ((d - 10 + 65) as u32) as char
    }
}

/// One byte of a URL-encoded value: itself when unreserved, else `%XX`.
pub open spec fn encoded_byte(b: u8) -> Seq<char> {
    if unreserved(b) {
        seq![(b as u32) as char]
    } else {
        seq!['%', hex_digit(b as int / 16), hex_digit(b as int % 16)]
    }
}

/// Percent-encoding of a byte string, byte by byte.
pub open spec fn url_encoded(bytes: Seq<u8>) -> Seq<char>
    decreases bytes.len(),
{
    if bytes.len() == 0 {
        Seq::empty()
    } else {
        url_encoded(bytes.drop_last()) + encoded_byte(bytes.last())
    }
}

fn hex(d: u8) -> (c: char)
    requires
        d < 16,
    ensures
        c == hex_digit(d as int),
{
    if d < 10 {
        (48u8 + d) as char
    } else {
        (55u8 + d) as char
    }
}

/// Percent-encodes the UTF-8 bytes of `s`, keeping `A-Z a-z 0-9 - _ . ~`.
pub fn urlencode(s: &str) -> (r: String)
    ensures
        r@ == url_encoded(encode_utf8(s@)),
{
    let bytes = s.as_bytes();
    let mut out = String::new();
    let n = bytes.len();
    for i in 0..n
        invariant
            n == bytes@.len(),
            bytes@ == encode_utf8(s@),
            out@ == url_encoded(bytes@.take(i as int)),
    {
        let b = bytes[i];
        assert(bytes@.take(i + 1).drop_last() =~= bytes@.take(i as int));
        if (65 <= b && b <= 90) || (97 <= b && b <= 122) || (48 <= b && b <= 57) || b == 45 || b == 95 || b == 46 || b == 126 {
            push_char(&mut out, b as char);
        } else {
            push_char(&mut out, '%');
            push_char(&mut out, hex(b / 16));
            push_char(&mut out, hex(b % 16));
        }
    }
    assert(bytes@.take(n as int) =~= bytes@);
    out
}

pub open spec fn message_url_text(id: Seq<char>) -> Seq<char> {
    "https://mandrillapp.com/activity?details="@ + id
}

pub open spec fn template_url_text(slug: Seq<char>) -> Seq<char> {
    "https://mandrillapp.com/templates/code?id="@ + url_encoded(encode_utf8(slug))
}

pub open spec fn tag_url_text(name: Seq<char>) -> Seq<char> {
    "https://mandrillapp.com/tags/info?tag="@ + url_encoded(encode_utf8(name))
}

pub open spec fn webhooks_url_text() -> Seq<char> {
    "https://mandrillapp.com/settings/webhooks"@
}

/// Activity page of one message.
pub fn message_url(id: &str) -> (r: String)
    ensures
        r@ == message_url_text(id@),
{
    let mut r = String::from_str("https://mandrillapp.com/activity?details=");
    r.append(id);
    r
}

/// Code page of one template.
pub fn template_url(slug: &str) -> (r: String)
    ensures
        r@ == template_url_text(slug@),
{
    let mut r = String::from_str("https://mandrillapp.com/templates/code?id=");
    let e = urlencode(slug);
    r.append(e.as_str());
    r
}

/// Stats page of one tag.
pub fn tag_url(name: &str) -> (r: String)
    ensures
        r@ == tag_url_text(name@),
{
    let mut r = String::from_str("https://mandrillapp.com/tags/info?tag=");
    let e = urlencode(name);
    r.append(e.as_str());
    r
}

/// Webhooks settings page.
pub fn webhooks_url() -> (r: &'static str)
    ensures
        r@ == webhooks_url_text(),
{
    "https://mandrillapp.com/settings/webhooks"
}

// ── List order ───────────────────────────────────────────────────

/// Unicode lower case of a string, as std's `str::to_lowercase` computes it.
pub uninterp spec fn lowercase(s: Seq<char>) -> Seq<char>;

/// std's `str::to_lowercase`; its result is named [`lowercase`].
#[verifier::external_body]
fn to_lowercase(s: &str) -> (r: String)
    ensures
        r@ == lowercase(s@),
{
    s.to_lowercase()
}

/// Messages: most recent first.
impl SortKey for Message {
    open spec fn key_le(&self, other: &Self) -> bool {
        self.ts >= other.ts
    }

    proof fn key_le_total(a: &Self, b: &Self) {
    }

    proof fn key_le_trans(a: &Self, b: &Self, c: &Self) {
    }

    fn key_before(&self, other: &Self) -> (r: bool) {
        self.ts >= other.ts
    }
}

/// Templates: by lower-cased name.
impl SortKey for Template {
    open spec fn key_le(&self, other: &Self) -> bool {
        bytes_le(encode_utf8(lowercase(self.name@)), encode_utf8(lowercase(other.name@)))
    }

    proof fn key_le_total(a: &Self, b: &Self) {
        lemma_bytes_le_total(encode_utf8(lowercase(a.name@)), encode_utf8(lowercase(b.name@)));
    }

    proof fn key_le_trans(a: &Self, b: &Self, c: &Self) {
        lemma_bytes_le_trans(
            encode_utf8(lowercase(a.name@)),
            encode_utf8(lowercase(b.name@)),
            encode_utf8(lowercase(c.name@)),
        );
    }

    fn key_before(&self, other: &Self) -> (r: bool) {
        let a = to_lowercase(self.name.as_str());
        let b = to_lowercase(other.name.as_str());
        slice_le(a.as_str().as_bytes(), b.as_str().as_bytes())
    }
}

/// Tags: most sends first.
impl SortKey for Tag {
    open spec fn key_le(&self, other: &Self) -> bool {
        self.sent >= other.sent
    }

    proof fn key_le_total(a: &Self, b: &Self) {
    }

    proof fn key_le_trans(a: &Self, b: &Self, c: &Self) {
    }

    fn key_before(&self, other: &Self) -> (r: bool) {
        self.sent >= other.sent
    }
}

/// Webhooks: by id.
impl SortKey for Webhook {
    open spec fn key_le(&self, other: &Self) -> bool {
        self.id <= other.id
    }

    proof fn key_le_total(a: &Self, b: &Self) {
    }

    proof fn key_le_trans(a: &Self, b: &Self, c: &Self) {
    }

    fn key_before(&self, other: &Self) -> (r: bool) {
        self.id <= other.id
    }
}

/// Search results in display order, capped at [`LIST_CAP`].
pub fn order_messages(raw: Vec<Message>) -> (r: Vec<Message>)
    ensures
        ordered_capped(raw@, r@, LIST_CAP as nat),
{
    order_and_cap(raw, LIST_CAP)
}

/// Templates in display order, capped at [`LIST_CAP`].
pub fn order_templates(raw: Vec<Template>) -> (r: Vec<Template>)
    ensures
        ordered_capped(raw@, r@, LIST_CAP as nat),
{
    order_and_cap(raw, LIST_CAP)
}

/// Tags in display order, capped at [`LIST_CAP`].
pub fn order_tags(raw: Vec<Tag>) -> (r: Vec<Tag>)
    ensures
        ordered_capped(raw@, r@, LIST_CAP as nat),
{
    order_and_cap(raw, LIST_CAP)
}

/// Webhooks in display order, capped at [`LIST_CAP`].
pub fn order_webhooks(raw: Vec<Webhook>) -> (r: Vec<Webhook>)
    ensures
        ordered_capped(raw@, r@, LIST_CAP as nat),
{
    order_and_cap(raw, LIST_CAP)
}

// ── Error envelope ───────────────────────────────────────────────

/// The string held by the top-level field `key` of the JSON document
/// `body`; `None` when `body` is not JSON, is not an object, lacks the
/// field, or the field is not a string.
pub uninterp spec fn json_string_field(body: Seq<char>, key: Seq<char>) -> Option<Seq<char>>;

/// serde_json's `from_str::<Value>`, then `Value::get` and
/// `Value::as_str`: the string field `key` of the JSON text `body`. The
/// result is named [`json_string_field`]; nothing more is claimed of it.
#[verifier::external_body]
fn json_field(body: &str, key: &str) -> (r: Option<String>)
    ensures
        match r {
            Some(s) => json_string_field(body@, key@) == Some(s@),
            None => json_string_field(body@, key@) is None,
        },
{
    match serde_json::from_str::<serde_json::Value>(body) {
        Ok(v) => match v.get(key) {
            Some(f) => match f.as_str() {
                Some(text) => Some(text.to_string()),
                None => None,
            },
            None => None,
        },
        Err(_) => None,
    }
}

pub open spec fn opt_or(o: Option<Seq<char>>, d: Seq<char>) -> Seq<char> {
    match o {
        Some(s) => s,
        None => d,
    }
}

/// The message for a failed request: Mandrill's error envelope
/// `{"status":"error","name":..,"message":..}` when the body is one,
/// else the bare HTTP status code.
pub open spec fn mandrill_error_text(
    http_status: u16,
    status: Option<Seq<char>>,
    name: Option<Seq<char>>,
    message: Option<Seq<char>>,
) -> Seq<char> {
    if status == Some("error"@) {
        "mandrill: "@ + opt_or(name, "error"@) + ": "@ + opt_or(message, "(no message)"@)
    } else {
        "mandrill: HTTP "@ + nat_text(http_status as nat)
    }
}

/// Renders the error message from the envelope's `status`, `name` and
/// `message` fields (each `None` when absent or not a string).
pub fn format_mandrill_error(
    http_status: u16,
    status: Option<String>,
    name: Option<String>,
    message: Option<String>,
) -> (r: String)
    ensures
        r@ == mandrill_error_text(http_status, opt_text(status), opt_text(name), opt_text(message)),
{
    let is_error = match &status {
        Some(s) => str_eq(s.as_str(), "error"),
        None => false,
    };
    if is_error {
        let mut r = String::from_str("mandrill: ");
        match &name {
            Some(n) => r.append(n.as_str()),
            None => r.append("error"),
        }
        r.append(": ");
        match &message {
            Some(m) => r.append(m.as_str()),
            None => r.append("(no message)"),
        }
        r
    } else {
        proof {
            match status {
                Some(s) => {
                    assert(s@ != "error"@);
                },
                None => {},
            }
        }
        let mut r = String::from_str("mandrill: HTTP ");
        let code = u64_text(http_status as u64);
        r.append(code.as_str());
        r
    }
}

/// Parses Mandrill's error envelope —
/// `{"status":"error","code":-1,"name":"ValidationError","message":"..."}`.
/// Falls back to a raw `HTTP {code}` string when the body doesn't fit
/// that shape.
pub fn extract_mandrill_error(http_status: u16, body: &str) -> (r: String)
    ensures
        r@ == mandrill_error_text(
            http_status,
            json_string_field(body@, "status"@),
            json_string_field(body@, "name"@),
            json_string_field(body@, "message"@),
        ),
{
    let status = json_field(body, "status");
    let name = json_field(body, "name");
    let message = json_field(body, "message");
    format_mandrill_error(http_status, status, name, message)
}

// ── Requests ─────────────────────────────────────────────────────

impl Auth {
    /// The URL of an endpoint path such as `/users/ping.json`.
    pub fn endpoint(&self, path: &str) -> (r: String)
        ensures
            r@ == api_base_text() + path@,
    {
        let mut r = String::from_str(self.api_base());
        r.append(path);
        r
    }
}

/// The value of one request-body field.
#[derive(Debug, Clone)]
pub enum FieldValue {
    Text(String),
    Int(i64),
    Count(usize),
}

/// One `"name": value` member of a request body.
#[derive(Debug, Clone)]
pub struct BodyField {
    pub name: String,
    pub value: FieldValue,
}

/// The view of a field value: text by its characters, numbers as
/// integers.
pub enum FieldView {
    Text(Seq<char>),
    Number(int),
}

pub open spec fn field_view(f: BodyField) -> (Seq<char>, FieldView) {
    (f.name@, match f.value {
        FieldValue::Text(t) => FieldView::Text(t@),
        FieldValue::Int(n) => FieldView::Number(n as int),
        FieldValue::Count(n) => FieldView::Number(n as int),
    })
}

pub open spec fn fields_view(fields: Seq<BodyField>) -> Seq<(Seq<char>, FieldView)> {
    fields.map_values(|f: BodyField| field_view(f))
}

/// The members of a body other than `"key"`, in their order.
pub open spec fn without_key(fields: Seq<(Seq<char>, FieldView)>) -> Seq<(Seq<char>, FieldView)>
    decreases fields.len(),
{
    if fields.len() == 0 {
        Seq::empty()
    } else if fields.last().0 == "key"@ {
        without_key(fields.drop_last())
    } else {
        without_key(fields.drop_last()).push(fields.last())
    }
}

/// A request body as sent: the caller's members, any `"key"` among them
/// replaced by the account's key, which comes last.
pub open spec fn keyed_body(fields: Seq<(Seq<char>, FieldView)>, api_key: Seq<char>) -> Seq<(Seq<char>, FieldView)> {
    without_key(fields).push(("key"@, FieldView::Text(api_key)))
}

fn copy_field(f: &BodyField) -> (r: BodyField)
    ensures
        field_view(r) == field_view(*f),
{
    let value = match &f.value {
        FieldValue::Text(t) => FieldValue::Text(t.clone()),
        FieldValue::Int(n) => FieldValue::Int(*n),
        FieldValue::Count(n) => FieldValue::Count(*n),
    };
    BodyField { name: f.name.clone(), value }
}

impl Auth {
    /// The members of a request body as sent: `fields` without any
    /// `"key"` member, then `"key"` with this account's API key.
    pub fn request_fields(&self, fields: Vec<BodyField>) -> (r: Vec<BodyField>)
        ensures
            fields_view(r@) == keyed_body(fields_view(fields@), self.api_key@),
    {
        let ghost src = fields_view(fields@);
        let mut out: Vec<BodyField> = Vec::new();
        let n = fields.len();
        let mut i: usize = 0;
        while i < n
            invariant
                n == fields@.len(),
                i <= n,
                src == fields_view(fields@),
                fields_view(out@) == without_key(src.take(i as int)),
            decreases n - i,
        {
            let f = copy_field(&fields[i]);
            assert(src.take(i + 1).drop_last() =~= src.take(i as int));
            if !str_eq(f.name.as_str(), "key") {
                out.push(f);
            }
            i = i + 1;
        }
        assert(src.take(n as int) =~= src);
        out.push(BodyField { name: String::from_str("key"), value: FieldValue::Text(self.api_key.clone()) });
        out
    }
}

/// What a response comes to: its body for a 2xx status, else the error
/// text read from Mandrill's error envelope.
pub fn response_outcome(http_status: u16, body: &str) -> (r: Result<String, String>)
    ensures
        200 <= http_status <= 299 ==> (r matches Ok(t) && t@ == body@),
        !(200 <= http_status <= 299) ==> (r matches Err(e) && e@ == mandrill_error_text(
            http_status,
            json_string_field(body@, "status"@),
            json_string_field(body@, "name"@),
            json_string_field(body@, "message"@),
        )),
{
    if 200 <= http_status && http_status <= 299 {
        Ok(String::from_str(body))
    } else {
        Err(extract_mandrill_error(http_status, body))
    }
}

/// The days chrono's `NaiveDate` can hold, counted from the Common Era:
/// January 1 of 262144 BCE through December 31 of 262142 CE.
pub open spec fn chrono_day_in_range(day: int) -> bool {
    -95_746_129 <= day <= 95_745_399
}

/// The day `days` days before `day` (both counted as chrono counts days
/// from the Common Era), when chrono can hold both; else `None`.
pub open spec fn days_before_result(day: i32, days: i64) -> Option<i32> {
    if chrono_day_in_range(day as int) && chrono_day_in_range(day - days) {
        Some((day - days) as i32)
    } else {
        None
    }
}

#[verifier::external_body]
fn days_before(day: i32, days: i64) -> (r: Option<i32>)
    requires
        -106_751_991_167 <= days <= 106_751_991_167,
    ensures
        r == days_before_result(day, days),
{
    match chrono::NaiveDate::from_num_days_from_ce_opt(day) {
        Some(d) => match d.checked_sub_signed(chrono::TimeDelta::days(days)) {
            Some(back) => Some(chrono::Datelike::num_days_from_ce(&back)),
            None => None,
        },
        None => None,
    }
}

/// chrono's `YYYY-MM-DD` rendering of the day `day` counted from the
/// Common Era; `None` when chrono cannot represent that day.
pub uninterp spec fn iso_date_text(day: i32) -> Option<Seq<char>>;

/// chrono's `NaiveDate::from_num_days_from_ce_opt` and its `Display`;
/// the result is named [`iso_date_text`].
#[verifier::external_body]
fn iso_date(day: i32) -> (r: Option<String>)
    ensures
        match r {
            Some(s) => iso_date_text(day) == Some(s@),
            None => iso_date_text(day) is None,
        },
        r is Some <==> chrono_day_in_range(day as int),
{
    match chrono::NaiveDate::from_num_days_from_ce_opt(day) {
        Some(d) => Some(d.to_string()),
        None => None,
    }
}

/// The body fields of `/messages/search.json`, less the key.
#[derive(Debug, Clone)]
pub struct SearchQuery {
    pub query: String,
    pub date_from: String,
    pub date_to: String,
    pub limit: usize,
}

impl SearchQuery {
    /// The members of the `/messages/search.json` body, less the key.
    pub fn body_fields(&self) -> (r: Vec<BodyField>)
        ensures
            fields_view(r@) == seq![
                ("query"@, FieldView::Text(self.query@)),
                ("date_from"@, FieldView::Text(self.date_from@)),
                ("date_to"@, FieldView::Text(self.date_to@)),
                ("limit"@, FieldView::Number(self.limit as int)),
            ],
    {
        let r = vec![
            BodyField { name: String::from_str("query"), value: FieldValue::Text(self.query.clone()) },
            BodyField { name: String::from_str("date_from"), value: FieldValue::Text(self.date_from.clone()) },
            BodyField { name: String::from_str("date_to"), value: FieldValue::Text(self.date_to.clone()) },
            BodyField { name: String::from_str("limit"), value: FieldValue::Count(self.limit) },
        ];
        assert(fields_view(r@) =~= seq![
            ("query"@, FieldView::Text(self.query@)),
            ("date_from"@, FieldView::Text(self.date_from@)),
            ("date_to"@, FieldView::Text(self.date_to@)),
            ("limit"@, FieldView::Number(self.limit as int)),
        ]);
        r
    }
}

/// `lookback_days` as an `i64` cast reads it: values past
/// `i64::MAX` wrap around.
pub open spec fn lookback_as_i64(lookback_days: u64) -> int {
    if lookback_days <= i64::MAX {
        lookback_days as int
    } else {
        lookback_days - 0x1_0000_0000_0000_0000
    }
}

/// Days that chrono's `TimeDelta::days` accepts.
pub open spec fn delta_days_ok(days: int) -> bool {
    -106_751_991_167 <= days <= 106_751_991_167
}

/// The first day searched: `lookback_days` before today, or today when
/// chrono cannot hold that day (or today itself).
pub open spec fn search_from_day(today: i32, lookback_days: u64) -> i32 {
    match days_before_result(today, lookback_as_i64(lookback_days) as i64) {
        Some(d) => d,
        None => today,
    }
}

/// `/messages/search.json` over everything (`*`) from `lookback_days`
/// before `today` to `today` (days counted from the Common Era), at most
/// [`MESSAGES_LIMIT`] results; `None` when chrono cannot render a date.
pub fn messages_search_query(today: i32, lookback_days: u64) -> (r: Option<SearchQuery>)
    requires
        delta_days_ok(lookback_as_i64(lookback_days)),
    ensures
        match (iso_date_text(search_from_day(today, lookback_days)), iso_date_text(today)) {
            (Some(from), Some(to)) => r matches Some(q) && q.query@ == "*"@ && q.date_from@ == from
                && q.date_to@ == to && q.limit == MESSAGES_LIMIT,
            _ => r is None,
        },
        r is Some <==> chrono_day_in_range(today as int),
{
    let back: i64 = if lookback_days <= 9223372036854775807u64 {
        lookback_days as i64
    } else {
        let over: u64 = lookback_days - 9223372036854775808u64;
        (over as i64) - 9223372036854775807i64 - 1
    };
    let from = match days_before(today, back) {
        Some(d) => d,
        None => today,
    };
    let from_text = iso_date(from);
    let to_text = iso_date(today);
    match (from_text, to_text) {
        (Some(f), Some(t)) => Some(
            SearchQuery { query: String::from_str("*"), date_from: f, date_to: t, limit: MESSAGES_LIMIT },
        ),
        _ => None,
    }
}

/// How `--check` shows a secret: `(unset)` when unset or empty; its byte
/// length, and its last four bytes when it is longer than six.
pub open spec fn masked_text(value: Option<Seq<char>>) -> Seq<char> {
    match value {
        Some(v) if v.len() > 0 => {
            let bytes = encode_utf8(v);
            if bytes.len() > 6 {
                "set ("@ + nat_text(bytes.len()) + " chars, ends …"@ + decode_utf8(
                    bytes.subrange(bytes.len() - 4, bytes.len() as int),
                ) + ")"@
            } else {
                "set ("@ + nat_text(bytes.len()) + " chars)"@
            }
        },
        _ => "(unset)"@,
    }
}

/// The value's UTF-8 length fits in memory, and when it is longer than
/// six bytes its last four bytes can be cut off on their own.
pub open spec fn secret_tail_cuttable(v: Seq<char>) -> bool {
    &&& encode_utf8(v).len() <= usize::MAX
    &&& encode_utf8(v).len() > 6 ==> is_char_boundary(encode_utf8(v), encode_utf8(v).len() - 4)
}

/// Masks the value of an environment variable for display.
pub fn mask_env_value(value: Option<String>) -> (r: String)
    requires
        value matches Some(v) ==> secret_tail_cuttable(v@),
    ensures
        r@ == masked_text(opt_text(value)),
{
    match value {
        Some(v) => {
            let s = v.as_str();
            if s.is_empty() {
                return String::from_str("(unset)");
            }
            let n = s.len();
            let mut r = String::from_str("set (");
            let len = u64_text(n as u64);
            r.append(len.as_str());
            if n > 6 {
                let (_, tail) = s.split_at(n - 4);
                proof {
                    assert(tail.spec_bytes() =~= encode_utf8(s@).subrange(n - 4, n as int));
                    assert(decode_utf8(encode_utf8(tail@)) == tail@);
                }
                r.append(" chars, ends …");
                r.append(tail);
                r.append(")");
            } else {
                r.append(" chars)");
            }
            r
        },
        None => String::from_str("(unset)"),
    }
}

// ── Laws ─────────────────────────────────────────────────────────

/// The shown key tail never takes more than five characters, and a
/// longer key shows exactly its last four after the `…`.
pub proof fn law_key_tail_short(key: Seq<char>)
    ensures
        key_tail_text(key).len() <= 5,
        key.len() > 4 ==> key_tail_text(key).drop_first() == key.subrange(
            key.len() - 4,
            key.len() as int,
        ),
{
    reveal_strlit("—");
    reveal_strlit("…");
    if key.len() > 4 {
        assert(key_tail_text(key).drop_first() =~= key.subrange(key.len() - 4, key.len() as int));
    }
}

/// Percent-encoding leaves a string of unreserved characters as it is.
pub proof fn law_urlencode_keeps_unreserved(bytes: Seq<u8>)
    requires
        forall|i: int| 0 <= i < bytes.len() ==> unreserved(#[trigger] bytes[i]),
    ensures
        url_encoded(bytes) == bytes.map_values(|b: u8| (b as u32) as char),
    decreases bytes.len(),
{
    if bytes.len() > 0 {
        let init = bytes.drop_last();
        assert forall|i: int| 0 <= i < init.len() implies unreserved(#[trigger] init[i]) by {
            assert(init[i] == bytes[i]);
        }
        law_urlencode_keeps_unreserved(init);
        assert(bytes.map_values(|b: u8| (b as u32) as char) =~= init.map_values(
            |b: u8| (b as u32) as char,
        ).push((bytes.last() as u32) as char));
    } else {
        assert(bytes.map_values(|b: u8| (b as u32) as char) =~= Seq::<char>::empty());
    }
}

/// Characters that may appear in a percent-encoded value: the unreserved
/// ones and `%`.
pub open spec fn url_char(c: char) -> bool {
    ||| 65 <= c as u32 <= 90
    ||| 97 <= c as u32 <= 122
    ||| 48 <= c as u32 <= 57
    ||| c as u32 == 45 || c as u32 == 95 || c as u32 == 46 || c as u32 == 126
    ||| c as u32 == 37
}

proof fn lemma_byte_char(b: u8)
    ensures
        ((b as u32) as char) as u32 == b,
{
    vstd::utf8::char_u32_cast((b as u32) as char, b as u32);
}

proof fn lemma_hex_digit(d: int)
    requires
        0 <= d < 16,
    ensures
        hex_digit(d) as u32 == (if d < 10 { d + 48 } else { d + 55 }),
{
    if d < 10 {
        lemma_byte_char((d + 48) as u8);
    } else {
        lemma_byte_char((d + 55) as u8);
    }
}

proof fn lemma_encoded_byte(b: u8)
    ensures
        encoded_byte(b).len() > 0,
        forall|k: int| 0 <= k < encoded_byte(b).len() ==> url_char(#[trigger] encoded_byte(b)[k]),
        (encoded_byte(b)[0] as u32 == 37) <==> !unreserved(b),
        unreserved(b) ==> encoded_byte(b)[0] as u32 == b,
{
    lemma_byte_char(b);
    lemma_hex_digit(b as int / 16);
    lemma_hex_digit(b as int % 16);
}

proof fn lemma_url_encoded_append(a: Seq<u8>, b: Seq<u8>)
    ensures
        url_encoded(a + b) == url_encoded(a) + url_encoded(b),
    decreases b.len(),
{
    if b.len() == 0 {
        assert(a + b =~= a);
        assert(url_encoded(a) + url_encoded(b) =~= url_encoded(a));
    } else {
        lemma_url_encoded_append(a, b.drop_last());
        assert((a + b).drop_last() =~= a + b.drop_last());
        assert((a + b).last() == b.last());
        assert(url_encoded(a + b) =~= url_encoded(a) + url_encoded(b));
    }
}

proof fn lemma_url_encoded_front(a: Seq<u8>)
    requires
        a.len() > 0,
    ensures
        url_encoded(a) == encoded_byte(a[0]) + url_encoded(a.drop_first()),
{
    let head = seq![a[0]];
    lemma_url_encoded_append(head, a.drop_first());
    assert(head + a.drop_first() =~= a);
    assert(head.drop_last() =~= Seq::<u8>::empty());
    assert(head.last() == a[0]);
    assert(url_encoded(Seq::<u8>::empty()) =~= Seq::<char>::empty());
    assert(url_encoded(head) =~= encoded_byte(a[0]));
}

proof fn lemma_encoded_byte_prefix(x: u8, y: u8, s: Seq<char>, t: Seq<char>)
    requires
        encoded_byte(x) + s == encoded_byte(y) + t,
    ensures
        x == y,
        s == t,
{
    let ex = encoded_byte(x);
    let ey = encoded_byte(y);
    lemma_encoded_byte(x);
    lemma_encoded_byte(y);
    assert((ex + s)[0] == ex[0]);
    assert((ey + t)[0] == ey[0]);
    if !unreserved(x) {
        assert((ex + s)[1] == ex[1]);
        assert((ey + t)[1] == ey[1]);
        assert((ex + s)[2] == ex[2]);
        assert((ey + t)[2] == ey[2]);
        lemma_hex_digit(x as int / 16);
        lemma_hex_digit(x as int % 16);
        lemma_hex_digit(y as int / 16);
        lemma_hex_digit(y as int % 16);
        assert(x as int / 16 == y as int / 16);
        assert(x as int % 16 == y as int % 16);
    }
    assert(ex =~= ey);
    assert(s =~= (ex + s).subrange(ex.len() as int, (ex + s).len() as int));
    assert(t =~= (ey + t).subrange(ey.len() as int, (ey + t).len() as int));
}

/// Every character of a percent-encoding is an unreserved character
/// (`A-Z a-z 0-9 - _ . ~`) or `%`.
pub proof fn law_urlencode_alphabet(bytes: Seq<u8>)
    ensures
        forall|k: int| 0 <= k < url_encoded(bytes).len() ==> url_char(#[trigger] url_encoded(bytes)[k]),
    decreases bytes.len(),
{
    if bytes.len() > 0 {
        let init = bytes.drop_last();
        law_urlencode_alphabet(init);
        lemma_encoded_byte(bytes.last());
        let e = encoded_byte(bytes.last());
        assert forall|k: int| 0 <= k < url_encoded(bytes).len() implies url_char(
            #[trigger] url_encoded(bytes)[k],
        ) by {
            if k >= url_encoded(init).len() {
                assert(url_encoded(bytes)[k] == e[k - url_encoded(init).len()]);
            } else {
                assert(url_encoded(bytes)[k] == url_encoded(init)[k]);
            }
        }
    }
}

/// Percent-encoding loses nothing: two byte strings with the same
/// encoding are the same byte string.
pub proof fn law_urlencode_bytes_injective(a: Seq<u8>, b: Seq<u8>)
    requires
        url_encoded(a) == url_encoded(b),
    ensures
        a == b,
    decreases a.len(),
{
    if a.len() == 0 {
        assert(url_encoded(a).len() == 0);
        if b.len() > 0 {
            lemma_url_encoded_front(b);
            lemma_encoded_byte(b[0]);
        }
        assert(a =~= b);
    } else if b.len() == 0 {
        assert(url_encoded(b).len() == 0);
        lemma_url_encoded_front(a);
        lemma_encoded_byte(a[0]);
    } else {
        lemma_url_encoded_front(a);
        lemma_url_encoded_front(b);
        lemma_encoded_byte_prefix(a[0], b[0], url_encoded(a.drop_first()), url_encoded(b.drop_first()));
        law_urlencode_bytes_injective(a.drop_first(), b.drop_first());
        assert(a =~= seq![a[0]] + a.drop_first());
        assert(b =~= seq![b[0]] + b.drop_first());
    }
}

/// Two strings with the same [`urlencode`] output are the same string, so
/// a slug or tag name can always be read back from its URL.
pub proof fn law_urlencode_injective(s: Seq<char>, t: Seq<char>)
    requires
        url_encoded(encode_utf8(s)) == url_encoded(encode_utf8(t)),
    ensures
        s == t,
{
    law_urlencode_bytes_injective(encode_utf8(s), encode_utf8(t));
    assert(decode_utf8(encode_utf8(s)) == s);
    assert(decode_utf8(encode_utf8(t)) == t);
}

proof fn lemma_without_key_has_none(fields: Seq<(Seq<char>, FieldView)>)
    ensures
        forall|i: int| 0 <= i < without_key(fields).len() ==> #[trigger] without_key(fields)[i].0 != "key"@,
    decreases fields.len(),
{
    if fields.len() > 0 {
        let init = fields.drop_last();
        lemma_without_key_has_none(init);
        let w = without_key(fields);
        if fields.last().0 != "key"@ {
            assert forall|i: int| 0 <= i < w.len() implies #[trigger] w[i].0 != "key"@ by {
                if i < without_key(init).len() {
                    assert(w[i] == without_key(init)[i]);
                }
            }
        }
    }
}

/// Every request body carries `"key"` exactly once, as its last member,
/// holding the account's API key; a body without a `"key"` of its own
/// keeps all its members, in order, before it.
pub proof fn law_body_carries_key(fields: Seq<(Seq<char>, FieldView)>, api_key: Seq<char>)
    ensures
        keyed_body(fields, api_key).last() == ("key"@, FieldView::Text(api_key)),
        forall|i: int|
            0 <= i < keyed_body(fields, api_key).len() - 1 ==> #[trigger] keyed_body(fields, api_key)[i].0
                != "key"@,
        (forall|i: int| 0 <= i < fields.len() ==> #[trigger] fields[i].0 != "key"@) ==> keyed_body(
            fields,
            api_key,
        ).drop_last() == fields,
    decreases fields.len(),
{
    lemma_without_key_has_none(fields);
    let body = keyed_body(fields, api_key);
    assert forall|i: int| 0 <= i < body.len() - 1 implies #[trigger] body[i].0 != "key"@ by {
        assert(body[i] == without_key(fields)[i]);
    }
    if forall|i: int| 0 <= i < fields.len() ==> #[trigger] fields[i].0 != "key"@ {
        if fields.len() > 0 {
            let init = fields.drop_last();
            assert forall|i: int| 0 <= i < init.len() implies #[trigger] init[i].0 != "key"@ by {
                assert(init[i] == fields[i]);
            }
            law_body_carries_key(init, api_key);
            assert(fields.last() == fields[fields.len() - 1]);
            assert(keyed_body(init, api_key).drop_last() == without_key(init));
            assert(without_key(fields) =~= fields);
        } else {
            assert(without_key(fields) =~= fields);
        }
        assert(body.drop_last() =~= without_key(fields));
    }
}

/// Listed messages are most recent first.
pub proof fn law_messages_most_recent_first(raw: Seq<Message>, shown: Seq<Message>)
    requires
        ordered_capped(raw, shown, LIST_CAP as nat),
    ensures
        forall|i: int, j: int| 0 <= i < j < shown.len() ==> shown[i].ts >= shown[j].ts,
{
    crate::sort::law_capped_sorted(raw, shown, LIST_CAP as nat);
    assert forall|i: int, j: int| 0 <= i < j < shown.len() implies shown[i].ts >= shown[j].ts by {
        assert(shown[i].key_le(&shown[j]));
    }
}

/// Listed tags are by sends, most first.
pub proof fn law_tags_most_sent_first(raw: Seq<Tag>, shown: Seq<Tag>)
    requires
        ordered_capped(raw, shown, LIST_CAP as nat),
    ensures
        forall|i: int, j: int| 0 <= i < j < shown.len() ==> shown[i].sent >= shown[j].sent,
{
    crate::sort::law_capped_sorted(raw, shown, LIST_CAP as nat);
    assert forall|i: int, j: int| 0 <= i < j < shown.len() implies shown[i].sent >= shown[j].sent by {
        assert(shown[i].key_le(&shown[j]));
    }
}

/// Listed webhooks are by id, lowest first.
pub proof fn law_webhooks_by_id(raw: Seq<Webhook>, shown: Seq<Webhook>)
    requires
        ordered_capped(raw, shown, LIST_CAP as nat),
    ensures
        forall|i: int, j: int| 0 <= i < j < shown.len() ==> shown[i].id <= shown[j].id,
{
    crate::sort::law_capped_sorted(raw, shown, LIST_CAP as nat);
    assert forall|i: int, j: int| 0 <= i < j < shown.len() implies shown[i].id <= shown[j].id by {
        assert(shown[i].key_le(&shown[j]));
    }
}

/// Listed templates are by lower-cased name.
pub proof fn law_templates_by_name(raw: Seq<Template>, shown: Seq<Template>)
    requires
        ordered_capped(raw, shown, LIST_CAP as nat),
    ensures
        forall|i: int, j: int|
            0 <= i < j < shown.len() ==> bytes_le(
                encode_utf8(lowercase(shown[i].name@)),
                encode_utf8(lowercase(shown[j].name@)),
            ),
{
    crate::sort::law_capped_sorted(raw, shown, LIST_CAP as nat);
    assert forall|i: int, j: int| 0 <= i < j < shown.len() implies bytes_le(
        encode_utf8(lowercase(shown[i].name@)),
        encode_utf8(lowercase(shown[j].name@)),
    ) by {
        assert(shown[i].key_le(&shown[j]));
    }
}

} // verus!
