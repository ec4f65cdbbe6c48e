//! The configuration: refresh cadence, message look-back, and the tabs.
//! Reading and writing the file is the front end's job; the rules that a
//! configuration must meet are here.

use vstd::prelude::*;
use crate::text::{nat_text, u64_text, str_eq};

verus! {

/// The whole configuration file.
#[derive(Debug, Clone)]
pub struct Config {
    pub refresh_interval_secs: u64,
    pub messages_lookback_days: u64,
    pub tabs: Vec<Tab>,
}

/// One `[[tabs]]` entry.
#[derive(Debug, Clone)]
pub struct Tab {
    pub name: String,
    /// Tab kind:
    ///   - `messages`  — recent transactional sends
    ///   - `templates` — every template
    ///   - `tags`      — tag stats
    ///   - `webhooks`  — every webhook
    pub kind: String,
}

/// Default for `refresh_interval_secs` when the file leaves it out.
pub fn default_refresh() -> (r: u64)
    ensures
        r == 60,
{
    60
}

/// Default for `messages_lookback_days` when the file leaves it out.
pub fn default_lookback_days() -> (r: u64)
    ensures
        r == 14,
{
    14
}

/// The four tab kinds.
pub open spec fn known_kind(kind: Seq<char>) -> bool {
    ||| kind == "messages"@
    ||| kind == "templates"@
    ||| kind == "tags"@
    ||| kind == "webhooks"@
}

/// Whether `kind` is one of the four tab kinds.
pub fn is_known_kind(kind: &str) -> (r: bool)
    ensures
        r == known_kind(kind@),
{
    str_eq(kind, "messages") || str_eq(kind, "templates") || str_eq(kind, "tags") || str_eq(
        kind,
        "webhooks",
    )
}

/// Every tab has a known kind.
pub open spec fn all_kinds_known(tabs: Seq<Tab>) -> bool {
    forall|i: int| 0 <= i < tabs.len() ==> known_kind(#[trigger] tabs[i].kind@)
}

/// What `validate` accepts.
pub open spec fn config_valid(c: Config) -> bool {
    &&& c.tabs.len() > 0
    &&& c.messages_lookback_days >= 1
    &&& all_kinds_known(c.tabs@)
}

/// Why a configuration was refused.
#[derive(Debug, Clone)]
pub enum ConfigError {
    /// No `[[tabs]]` entry.
    NoTabs,
    /// `messages_lookback_days` is zero.
    ZeroLookback,
    /// Tab number `index` (from 0) has a kind that is not one of the four.
    UnknownKind { index: usize, name: String, kind: String },
}

/// Rust's `Debug` rendering of a string: quoted, with escapes.
pub uninterp spec fn debug_text(s: Seq<char>) -> Seq<char>;

/// std's `Debug` formatting of a `str` (`format!("{:?}", s)`); the result
/// is named [`debug_text`].
#[verifier::external_body]
pub(crate) fn debug_quoted(s: &str) -> (r: String)
    ensures
        r@ == debug_text(s@),
{
    format!("{:?}", s)
}

pub open spec fn config_error_text(e: ConfigError) -> Seq<char> {
    match e {
        ConfigError::NoTabs => "config: at least one [[tabs]] entry required"@,
        ConfigError::ZeroLookback => "config: messages_lookback_days must be at least 1"@,
        ConfigError::UnknownKind { index, name, kind } => "tab #"@ + nat_text(index as nat) + " ("@
            + name@ + "): unknown kind "@ + debug_text(kind@)
            + " (expected \"messages\", \"templates\", \"tags\", or \"webhooks\")"@,
    }
}

impl ConfigError {
    /// The message shown to the user.
    pub fn message(&self) -> (r: String)
        ensures
            r@ == config_error_text(*self),
    {
        match self {
            ConfigError::NoTabs => String::from_str("config: at least one [[tabs]] entry required"),
            ConfigError::ZeroLookback => String::from_str(
                "config: messages_lookback_days must be at least 1",
            ),
            ConfigError::UnknownKind { index, name, kind } => {
                let mut r = String::from_str("tab #");
                let i = u64_text(*index as u64);
                r.append(i.as_str());
                r.append(" (");
                r.append(name.as_str());
                r.append("): unknown kind ");
                let k = debug_quoted(kind.as_str());
                r.append(k.as_str());
                r.append(" (expected \"messages\", \"templates\", \"tags\", or \"webhooks\")");
                r
            },
        }
    }
}

impl Config {
    /// The file written on first run.
    pub const EXAMPLE: &'static str = r##"# mnml-msg-mandrill config. Edit and re-run.
#
# Auth lives in env (NOT here):
#   export MANDRILL_API_KEY=...   (required; Mandrill → Settings → API Keys)

refresh_interval_secs = 60
messages_lookback_days = 14

# ── Tabs ─────────────────────────────────────────────────────────
# Kinds:
#   "messages"  — recent transactional sends
#   "templates" — every template + publish state
#   "tags"      — every tag with cumulative stats + bounce rate
#   "webhooks"  — every webhook + events + auth-key tail

[[tabs]]
name = "messages"
kind = "messages"

[[tabs]]
name = "templates"
kind = "templates"

[[tabs]]
name = "tags"
kind = "tags"

[[tabs]]
name = "webhooks"
kind = "webhooks"
"##;

    /// Checks the configuration: at least one tab, a look-back of at least
    /// one day, and a known kind on every tab; the first failing rule, in
    /// that order, is reported, and for kinds the first offending tab.
    pub fn validate(&self) -> (r: Result<(), ConfigError>)
        ensures
            r is Ok <==> config_valid(*self),
            self.tabs.len() == 0 ==> r matches Err(ConfigError::NoTabs),
            self.tabs.len() > 0 && self.messages_lookback_days == 0 ==> r matches Err(
                ConfigError::ZeroLookback,
            ),
            r matches Err(ConfigError::UnknownKind { index, name, kind }) ==> {
                &&& self.tabs.len() > 0
                &&& self.messages_lookback_days > 0
                &&& index < self.tabs.len()
                &&& !known_kind(self.tabs@[index as int].kind@)
                &&& forall|j: int| 0 <= j < index ==> known_kind(#[trigger] self.tabs@[j].kind@)
                &&& name@ == self.tabs@[index as int].name@
                &&& kind@ == self.tabs@[index as int].kind@
            },
    {
        if self.tabs.len() == 0 {
            return Err(ConfigError::NoTabs);
        }
        if self.messages_lookback_days == 0 {
            return Err(ConfigError::ZeroLookback);
        }
        let n = self.tabs.len();
        for i in 0..n
            invariant
                n == self.tabs@.len(),
                n > 0,
                self.messages_lookback_days > 0,
                forall|j: int| 0 <= j < i ==> known_kind(#[trigger] self.tabs@[j].kind@),
        {
            let t = &self.tabs[i];
            if !is_known_kind(t.kind.as_str()) {
                return Err(
                    ConfigError::UnknownKind { index: i, name: t.name.clone(), kind: t.kind.clone() },
                );
            }
        }
        Ok(())
    }
}

} // verus!
