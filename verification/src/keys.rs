//! Key bindings: which key does what, and what each action does to the
//! state. The front end reads keys and carries out the returned effect.

use vstd::prelude::*;
use vstd::arithmetic::div_mod::{lemma_small_mod, lemma_mod_add_multiples_vanish};
use crate::app::{App, Item, console_url, yank_text, no_item_text, moved_selection};

verus! {

/// A key press, as far as the bindings tell keys apart.
#[derive(Debug, Clone, Copy, PartialEq, Eq, Structural)]
pub enum Key {
    Char(char),
    Tab,
    BackTab,
    Up,
    Down,
    PageUp,
    PageDown,
    Enter,
    Esc,
    Other,
}

/// What a key asks for.
#[derive(Debug, Clone, Copy, PartialEq, Eq, Structural)]
pub enum Action {
    /// Switch to tab number `n` (from 0).
    SwitchTab(usize),
    NextTab,
    PrevTab,
    /// Move the cursor by that many rows.
    Move(isize),
    Top,
    Bottom,
    Open,
    Yank,
    EventLog,
    Refresh,
    Quit,
}

pub open spec fn binding(key: Key, ctrl: bool) -> Option<Action> {
    match key {
        Key::Char(c) => if ctrl {
            if c == 'c' { Some(Action::Quit) } else { None }
        } else if '1' <= c <= '9' {
            Some(Action::SwitchTab(((c as u32) - 49) as usize))
        } else if c == 'k' {
            Some(Action::Move(-1isize))
        } else if c == 'j' {
            Some(Action::Move(1isize))
        } else if c == 'g' {
            Some(Action::Top)
        } else if c == 'G' {
            Some(Action::Bottom)
        } else if c == 'o' {
            Some(Action::Open)
        } else if c == 'y' {
            Some(Action::Yank)
        } else if c == 'L' {
            Some(Action::EventLog)
        } else if c == 'r' {
            Some(Action::Refresh)
        } else if c == 'q' {
            Some(Action::Quit)
        } else {
            None
        },
        Key::Tab => Some(Action::NextTab),
        Key::BackTab => Some(Action::PrevTab),
        Key::Up => Some(Action::Move(-1isize)),
        Key::Down => Some(Action::Move(1isize)),
        Key::PageUp => Some(Action::Move(-10isize)),
        Key::PageDown => Some(Action::Move(10isize)),
        Key::Enter => Some(Action::Open),
        Key::Esc => Some(Action::Quit),
        Key::Other => None,
    }
}

/// `1`-`9` tab · Tab/BackTab cycle · ↑/k ↓/j move · PgUp/PgDn ten rows ·
/// g/G top/bottom · Enter/o web · y yank · L event log · r refresh ·
/// q/Esc/Ctrl+C quit.
pub fn handle(key: Key, ctrl: bool) -> (r: Option<Action>)
    ensures
        r == binding(key, ctrl),
{
    match key {
        Key::Char(c) => {
            if ctrl {
                if c == 'c' {
                    Some(Action::Quit)
                } else {
                    None
                }
            } else if '1' <= c && c <= '9' {
                Some(Action::SwitchTab(((c as u32) - 49) as usize))
            } else if c == 'k' {
                Some(Action::Move(-1))
            } else if c == 'j' {
                Some(Action::Move(1))
            } else if c == 'g' {
                Some(Action::Top)
            } else if c == 'G' {
                Some(Action::Bottom)
            } else if c == 'o' {
                Some(Action::Open)
            } else if c == 'y' {
                Some(Action::Yank)
            } else if c == 'L' {
                Some(Action::EventLog)
            } else if c == 'r' {
                Some(Action::Refresh)
            } else if c == 'q' {
                Some(Action::Quit)
            } else {
                None
            }
        },
        Key::Tab => Some(Action::NextTab),
        Key::BackTab => Some(Action::PrevTab),
        Key::Up => Some(Action::Move(-1)),
        Key::Down => Some(Action::Move(1)),
        Key::PageUp => Some(Action::Move(-10)),
        Key::PageDown => Some(Action::Move(10)),
        Key::Enter => Some(Action::Open),
        Key::Esc => Some(Action::Quit),
        Key::Other => None,
    }
}

/// What the front end must do after an action.
#[derive(Debug, Clone)]
pub enum Effect {
    /// Nothing more.
    Done,
    /// Leave the program.
    Quit,
    /// Load the active tab and hand the outcome to `refresh_active`.
    Load,
    /// Open this URL, then call `open_console_done`.
    OpenUrl(String),
    /// Copy this text, then call `yank_done`.
    Copy(String),
    /// Fetch, write and page the event log of this message, then call
    /// `event_log_done`.
    ShowEventLog(String),
}

/// Tab `i` became active, nothing else changed, and the effect asks for a
/// load exactly when that tab has no items and no error.
pub open spec fn switched_to(before: App, after: App, e: Effect, i: int) -> bool {
    &&& after.active_tab == i
    &&& after.tabs == before.tabs
    &&& after.status == before.status
    &&& (e is Load <==> (before.tabs@[i].data.items@.len() == 0
        && before.tabs@[i].data.last_error is None))
    &&& (e is Load || e is Done)
}

/// Only the cursor of the active tab may differ.
pub open spec fn only_cursor_moved(before: App, after: App) -> bool {
    &&& after.active_tab == before.active_tab
    &&& after.status == before.status
    &&& after.tabs@.len() == before.tabs@.len()
    &&& forall|i: int|
        0 <= i < before.tabs@.len() && i != before.active_tab ==> #[trigger] after.tabs@[i]
            == before.tabs@[i]
    &&& after.active_spec().name == before.active_spec().name
    &&& after.active_spec().spec == before.active_spec().spec
    &&& after.active_spec().data.items == before.active_spec().data.items
    &&& after.active_spec().data.last_loaded == before.active_spec().data.last_loaded
    &&& after.active_spec().data.last_error == before.active_spec().data.last_error
    &&& after.active_spec().data.loading == before.active_spec().data.loading
    &&& after.active_spec().data.truncated == before.active_spec().data.truncated
}

impl App {
    /// Carries out the state part of an action and names the outside work
    /// left for the front end.
    pub fn apply(&mut self, action: Action) -> (e: Effect)
        requires
            old(self).wf(),
            action matches Action::Move(d) ==> (old(self).active_spec().data.items@.len() > 0
                ==> isize::MIN <= old(self).active_spec().data.selected + d <= isize::MAX),
        ensures
            final(self).wf(),
            final(self).cfg == old(self).cfg,
            final(self).auth == old(self).auth,
            final(self).tabs@.len() == old(self).tabs@.len(),
            action == Action::Quit ==> e is Quit && *final(self) == *old(self),
            action == Action::Refresh ==> e is Load && *final(self) == *old(self),
            action == Action::NextTab ==> final(self).active_tab == (old(self).active_tab + 1) % (
            old(self).tabs@.len() as int),
            action == Action::PrevTab ==> final(self).active_tab == (old(self).active_tab
                + old(self).tabs@.len() - 1) % (old(self).tabs@.len() as int),
            action matches Action::SwitchTab(i) ==> (i < old(self).tabs@.len() ==> final(self).active_tab == i) && (i >= old(self).tabs@.len() ==> *final(self) == *old(self)
                && e is Done),
            (action matches Action::SwitchTab(i) && i < old(self).tabs@.len()) ==> switched_to(
                *old(self),
                *final(self),
                e,
                action->SwitchTab_0 as int,
            ),
            action == Action::NextTab ==> switched_to(
                *old(self),
                *final(self),
                e,
                (old(self).active_tab + 1) % (old(self).tabs@.len() as int),
            ),
            action == Action::PrevTab ==> switched_to(
                *old(self),
                *final(self),
                e,
                (old(self).active_tab + old(self).tabs@.len() - 1) % (old(self).tabs@.len() as int),
            ),
            (action is Move || action is Top || action is Bottom) ==> only_cursor_moved(
                *old(self),
                *final(self),
            ),
            action matches Action::Move(d) ==> {
                let n = old(self).active_spec().data.items@.len();
                let sel = old(self).active_spec().data.selected;
                final(self).active_tab == old(self).active_tab && (n > 0 ==> final(self).active_spec().data.selected == moved_selection(sel, d, n)) && e is Done
            },
            action == Action::Top ==> final(self).active_tab == old(self).active_tab
                && final(self).active_spec().data.selected == 0 && e is Done,
            action == Action::Bottom ==> {
                let n = old(self).active_spec().data.items@.len();
                final(self).active_tab == old(self).active_tab
                    && final(self).active_spec().data.selected == (if n == 0 { 0 } else { n - 1 })
                    && e is Done
            },
            (action == Action::Open || action == Action::Yank || action == Action::EventLog)
                ==> final(self).same_but_status(old(self)),
            action == Action::Open ==> match old(self).focused_spec() {
                Some(it) => e matches Effect::OpenUrl(u) && u@ == console_url(it)
                    && final(self).status == old(self).status,
                None => e is Done && final(self).status@ == no_item_text(),
            },
            action == Action::Yank ==> match old(self).focused_spec() {
                Some(it) => if yank_text(it).len() > 0 {
                    e matches Effect::Copy(p) && p@ == yank_text(it) && final(self).status
                        == old(self).status
                } else {
                    e is Done && final(self).status@ == "nothing to copy"@
                },
                None => e is Done && final(self).status@ == no_item_text(),
            },
            action == Action::EventLog ==> match old(self).focused_spec() {
                Some(Item::Message(m)) => e matches Effect::ShowEventLog(i) && i@ == m.id@
                    && final(self).status == old(self).status,
                _ => e is Done && final(self).status@ == "L event log only available on messages"@,
            },
    {
        proof {
            assert(crate::app::tab_wf(self.tabs@[self.active_tab as int]));
        }
        match action {
            Action::Quit => Effect::Quit,
            Action::Refresh => Effect::Load,
            Action::SwitchTab(i) => {
                if self.switch_tab(i) {
                    Effect::Load
                } else {
                    Effect::Done
                }
            },
            Action::NextTab => {
                let n = self.tabs.len();
                let next = (self.active_tab + 1) % n;
                assert(next == (self.active_tab + 1) % (n as int));
                if self.switch_tab(next) {
                    Effect::Load
                } else {
                    Effect::Done
                }
            },
            Action::PrevTab => {
                let n = self.tabs.len();
                let prev = if self.active_tab == 0 { n - 1 } else { self.active_tab - 1 };
                proof {
                    if self.active_tab == 0 {
                        lemma_small_mod((n - 1) as nat, n as nat);
                    } else {
                        lemma_mod_add_multiples_vanish(self.active_tab - 1, n as int);
                        lemma_small_mod((self.active_tab - 1) as nat, n as nat);
                    }
                    assert(prev == (self.active_tab + n - 1) % (n as int));
                }
                if self.switch_tab(prev) {
                    Effect::Load
                } else {
                    Effect::Done
                }
            },
            Action::Move(d) => {
                let n = self.tabs[self.active_tab].data.items.len();
                if n > 0 {
                    self.move_selection(d);
                }
                Effect::Done
            },
            Action::Top => {
                let sel = self.tabs[self.active_tab].data.selected;
                self.move_selection(-(sel as isize));
                Effect::Done
            },
            Action::Bottom => {
                let n = self.tabs[self.active_tab].data.items.len();
                let sel = self.tabs[self.active_tab].data.selected;
                if n > 0 {
                    self.move_selection((n - 1) as isize - sel as isize);
                }
                Effect::Done
            },
            Action::Open => match self.open_console() {
                Some(u) => Effect::OpenUrl(u),
                None => Effect::Done,
            },
            Action::Yank => match self.yank() {
                Some(p) => Effect::Copy(p),
                None => Effect::Done,
            },
            Action::EventLog => match self.event_log() {
                Some(id) => Effect::ShowEventLog(id),
                None => Effect::Done,
            },
        }
    }
}

/// `Tab` then `BackTab` comes back to the same tab, and so does the
/// other way round.
pub proof fn law_tab_cycle(active: int, count: int)
    requires
        0 <= active < count,
    ensures
        ((active + 1) % count + count - 1) % count == active,
        ((active + count - 1) % count + 1) % count == active,
{
    if active + 1 < count {
        lemma_small_mod((active + 1) as nat, count as nat);
        lemma_mod_add_multiples_vanish(active, count);
        lemma_small_mod(active as nat, count as nat);
    } else {
        vstd::arithmetic::div_mod::lemma_mod_self_0(count);
        lemma_small_mod((count - 1) as nat, count as nat);
    }
    if active > 0 {
        lemma_mod_add_multiples_vanish(active - 1, count);
        lemma_small_mod((active - 1) as nat, count as nat);
        lemma_small_mod(active as nat, count as nat);
    } else {
        lemma_small_mod((count - 1) as nat, count as nat);
        vstd::arithmetic::div_mod::lemma_mod_self_0(count);
    }
}

} // verus!
