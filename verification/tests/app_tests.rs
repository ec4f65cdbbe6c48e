use mnml_msg_mandrill::app::{
    event_log_file_name, event_log_text, short_time, App, EventLogOutcome, FetchKind, Fetched,
    Item, ItemsTab, TabSpec,
};
use mnml_msg_mandrill::config::{Config, Tab};
use mnml_msg_mandrill::keys::{handle, Action, Effect, Key};
use mnml_msg_mandrill::mandrill::{
    Auth, ClickEvent, Message, MessageDetail, OpenEvent, SmtpEvent, Tag, Template, Webhook,
    LIST_CAP,
};

fn tab(name: &str, kind: &str) -> Tab {
    Tab { name: name.into(), kind: kind.into() }
}

fn msg(id: &str, ts: i64) -> Message {
    Message {
        id: id.into(),
        subject: format!("subject {id}"),
        email: format!("{id}@example.com"),
        state: "delivered".into(),
        ts,
        sender: "from@example.com".into(),
        tags: vec![],
        opens: 0,
        clicks: 0,
    }
}

fn tag(name: &str, sent: i64) -> Tag {
    Tag {
        tag: name.into(),
        reputation: 0,
        sent,
        hard_bounces: 0,
        soft_bounces: 0,
        rejects: 0,
        complaints: 0,
        unsubs: 0,
        opens: 0,
        clicks: 0,
        unique_opens: 0,
        unique_clicks: 0,
    }
}

fn hook(id: i64, url: &str, key: &str, events: &[&str]) -> Webhook {
    Webhook {
        id,
        url: url.into(),
        description: None,
        auth_key: key.into(),
        events: events.iter().map(|e| e.to_string()).collect(),
        created_at: None,
        last_sent_at: None,
        batches_sent: 0,
        events_sent: 0,
        last_error: None,
    }
}

fn tmpl(slug: &str, name: &str) -> Template {
    Template {
        slug: slug.into(),
        name: name.into(),
        publish_name: String::new(),
        publish_code: None,
        publish_subject: None,
        publish_from_email: None,
        publish_from_name: None,
        publish_text: None,
        published_at: None,
        created_at: None,
        updated_at: None,
        code: None,
        subject: None,
        from_email: None,
        from_name: None,
        text: None,
        labels: vec![],
    }
}

fn app_with(tabs: Vec<Tab>) -> App {
    let cfg = Config { refresh_interval_secs: 60, messages_lookback_days: 14, tabs };
    App::new(cfg, Auth { api_key: "k".into() }).ok().unwrap()
}

fn standard_app() -> App {
    app_with(vec![
        tab("messages", "messages"),
        tab("templates", "templates"),
        tab("tags", "tags"),
        tab("webhooks", "webhooks"),
    ])
}

#[test]
fn tab_spec_resolves_messages() {
    let t = Tab { name: "x".into(), kind: "messages".into() };
    let spec = TabSpec::resolve(&t).ok().unwrap();
    assert_eq!(spec.kind, "messages");
}

#[test]
fn tab_spec_rejects_unknown_kind() {
    let t = Tab { name: "bad".into(), kind: "bogus".into() };
    assert!(TabSpec::resolve(&t).is_err());
}

#[test]
fn tab_error_message() {
    let t = Tab { name: "bad".into(), kind: "bogus".into() };
    let e = TabSpec::resolve(&t).err().unwrap();
    assert_eq!(e.message(), "tab `bad`: unknown kind \"bogus\"");
}

#[test]
fn short_time_renders_known_epoch() {
    // 2026-06-06T12:34:56Z = 1780749296
    let s = short_time(1780749296);
    assert!(!s.is_empty());
    assert_ne!(s, "—");
    assert!(s.contains(':'));
}

#[test]
fn short_time_exact_and_edges() {
    assert_eq!(short_time(1780749296), "06-06 12:34");
    assert_eq!(short_time(1700000000), "11-14 22:13");
    assert_eq!(short_time(0), "—");
    assert_eq!(short_time(-5), "—");
    // Beyond chrono's range the raw number is shown.
    assert_eq!(short_time(i64::MAX), i64::MAX.to_string());
}

#[test]
fn new_app_starts_on_first_tab_empty() {
    let app = standard_app();
    assert_eq!(app.tabs.len(), 4);
    assert_eq!(app.active_tab, 0);
    assert_eq!(app.status, "");
    assert_eq!(app.active().name, "messages");
    assert!(app.focused_item().is_none());
    assert_eq!(app.refresh_request().kind, FetchKind::Messages);
    assert_eq!(app.refresh_request().lookback_days, 14);
    let e = ItemsTab::empty();
    assert!(e.items.is_empty() && e.selected == 0 && !e.loading && !e.truncated);
}

#[test]
fn new_app_rejects_first_unknown_tab() {
    let cfg = Config {
        refresh_interval_secs: 60,
        messages_lookback_days: 14,
        tabs: vec![tab("a", "tags"), tab("b", "nope"), tab("c", "bad")],
    };
    let e = App::new(cfg, Auth { api_key: "k".into() }).err().unwrap();
    assert_eq!(e.name, "b");
    assert_eq!(e.kind, "nope");
}

#[test]
fn refresh_orders_caps_and_reports() {
    let mut app = standard_app();
    app.refresh_active(Ok(Fetched::Messages(vec![msg("old", 10), msg("new", 30), msg("mid", 20)])), 5);
    let ids: Vec<String> = app
        .active()
        .data
        .items
        .iter()
        .map(|i| match i {
            Item::Message(m) => m.id.clone(),
            _ => panic!("not a message"),
        })
        .collect();
    assert_eq!(ids, vec!["new", "mid", "old"]);
    assert_eq!(app.status, "messages: 3 messages");
    assert!(!app.active().data.truncated);
    assert_eq!(app.active().data.last_loaded, Some(5));
    assert!(app.active().data.last_error.is_none());

    // More than LIST_CAP items: capped and flagged.
    app.switch_tab(2);
    let many: Vec<Tag> = (0..(LIST_CAP as i64 + 1)).map(|i| tag(&i.to_string(), i)).collect();
    app.refresh_active(Ok(Fetched::Tags(many)), 9);
    assert_eq!(app.active().data.items.len(), LIST_CAP);
    assert!(app.active().data.truncated);
    assert_eq!(app.status, "tags: 500 tags (capped)");

    // Exactly LIST_CAP items: not flagged.
    let exact: Vec<Tag> = (0..(LIST_CAP as i64)).map(|i| tag(&i.to_string(), i)).collect();
    app.refresh_active(Ok(Fetched::Tags(exact)), 10);
    assert!(!app.active().data.truncated);
}

#[test]
fn refresh_error_keeps_items() {
    let mut app = standard_app();
    app.refresh_active(Ok(Fetched::Messages(vec![msg("a", 1), msg("b", 2)])), 1);
    app.move_selection(1);
    app.refresh_active(Err("POST https://mandrillapp.com/api/1.0/messages/search.json".into()), 2);
    assert_eq!(app.active().data.items.len(), 2);
    assert_eq!(app.active().data.selected, 1);
    assert_eq!(
        app.active().data.last_error.as_deref(),
        Some("POST https://mandrillapp.com/api/1.0/messages/search.json")
    );
    assert_eq!(app.status, "error: POST https://mandrillapp.com/api/1.0/messages/search.json");
    assert_eq!(app.active().data.last_loaded, Some(1));
}

#[test]
fn reload_pulls_cursor_back() {
    let mut app = standard_app();
    app.refresh_active(Ok(Fetched::Messages((0..5).map(|i| msg(&i.to_string(), i)).collect())), 1);
    app.move_selection(4);
    assert_eq!(app.active().data.selected, 4);
    app.refresh_active(Ok(Fetched::Messages(vec![msg("x", 1), msg("y", 2)])), 2);
    assert_eq!(app.active().data.selected, 1);
    app.refresh_active(Ok(Fetched::Messages(vec![])), 3);
    assert_eq!(app.active().data.selected, 0);
    assert!(app.focused_item().is_none());
}

#[test]
fn move_selection_clamps() {
    let mut app = standard_app();
    app.move_selection(3);
    assert_eq!(app.active().data.selected, 0);
    app.refresh_active(Ok(Fetched::Messages((0..5).map(|i| msg(&i.to_string(), i)).collect())), 1);
    app.move_selection(10);
    assert_eq!(app.active().data.selected, 4);
    app.move_selection(-2);
    assert_eq!(app.active().data.selected, 2);
    app.move_selection(-10);
    assert_eq!(app.active().data.selected, 0);
    app.move_selection(0);
    assert_eq!(app.active().data.selected, 0);
}

#[test]
fn switch_tab_asks_for_load_only_when_needed() {
    let mut app = standard_app();
    assert!(app.switch_tab(1));
    assert_eq!(app.active_tab, 1);
    app.refresh_active(Ok(Fetched::Templates(vec![tmpl("w", "Welcome")])), 1);
    app.switch_tab(0);
    assert!(app.switch_tab(1) == false);
    assert!(!app.switch_tab(9));
    assert_eq!(app.active_tab, 1);
    app.switch_tab(3);
    app.refresh_active(Err("boom".into()), 1);
    app.switch_tab(0);
    assert!(!app.switch_tab(3));
}

#[test]
fn tick_schedule() {
    let mut app = standard_app();
    assert!(app.tick(0));
    app.refresh_active(Ok(Fetched::Messages(vec![])), 1_000_000_000);
    assert!(!app.tick(1_000_000_000));
    assert!(!app.tick(60_999_999_999));
    assert!(app.tick(61_000_000_000));
    assert!(!app.tick(0));
    app.cfg.refresh_interval_secs = 0;
    assert!(!app.tick(u64::MAX));
    app.active_mut().data.loading = true;
    app.cfg.refresh_interval_secs = 1;
    assert!(!app.tick(u64::MAX));
}

#[test]
fn yank_open_and_event_log_decisions() {
    let mut app = standard_app();
    assert!(app.yank().is_none());
    assert_eq!(app.status, "no item under cursor");
    assert!(app.open_console().is_none());
    assert!(app.event_log().is_none());
    assert_eq!(app.status, "L event log only available on messages");

    app.refresh_active(Ok(Fetched::Messages(vec![msg("abc123", 1)])), 1);
    assert_eq!(app.yank().as_deref(), Some("abc123"));
    app.yank_done("abc123", Ok(()));
    assert_eq!(app.status, "copied (6 chars)");
    app.yank_done("é", Err("no clipboard".into()));
    assert_eq!(app.status, "copy failed: no clipboard");
    assert_eq!(
        app.open_console().as_deref(),
        Some("https://mandrillapp.com/activity?details=abc123")
    );
    app.open_console_done("u", Ok(()));
    assert_eq!(app.status, "opened u");
    app.open_console_done("u", Err("no browser".into()));
    assert_eq!(app.status, "open failed: no browser");
    assert_eq!(app.event_log().as_deref(), Some("abc123"));

    app.switch_tab(2);
    app.refresh_active(Ok(Fetched::Tags(vec![tag("user signup", 3), tag("", 1)])), 1);
    assert_eq!(
        app.open_console().as_deref(),
        Some("https://mandrillapp.com/tags/info?tag=user%20signup")
    );
    app.move_selection(1);
    app.status = "before".into();
    assert!(app.yank().is_none());
    assert_eq!(app.status, "nothing to copy");
    assert!(app.event_log().is_none());

    app.switch_tab(3);
    app.refresh_active(Ok(Fetched::Webhooks(vec![hook(4, "https://h", "", &[])])), 1);
    assert_eq!(app.open_console().as_deref(), Some("https://mandrillapp.com/settings/webhooks"));
    assert_eq!(app.yank().as_deref(), Some("https://h"));
}

#[test]
fn event_log_statuses() {
    let mut app = standard_app();
    app.event_log_done(EventLogOutcome::FetchFailed("timeout".into()));
    assert_eq!(app.status, "message_info failed: timeout");
    app.event_log_done(EventLogOutcome::WriteFailed { path: "/t/x".into(), error: "denied".into() });
    assert_eq!(app.status, "write /t/x failed: denied");
    app.event_log_done(EventLogOutcome::Shown { path: "/t/x".into() });
    assert_eq!(app.status, "event log: /t/x");
    app.event_log_done(EventLogOutcome::SpawnFailed {
        pager: "less".into(),
        error: "missing".into(),
        path: "/t/x".into(),
    });
    assert_eq!(app.status, "spawn less failed: missing (log at /t/x)");
    assert_eq!(event_log_file_name("abc"), "mnml-msg-mandrill-abc.txt");
}

#[test]
fn event_log_text_layout() {
    let detail = MessageDetail {
        id: "abc".into(),
        subject: "hi".into(),
        email: "to@example.com".into(),
        sender: "from@example.com".into(),
        state: "sent".into(),
        ts: 1700000000,
        tags: vec!["welcome".into(), "new".into()],
        opens: 1,
        clicks: 0,
        smtp_events: vec![SmtpEvent { ts: 1700000001, event_type: "sent".into(), diag: "250 OK".into() }],
        opens_detail: vec![OpenEvent { ts: 0, ip: "1.2.3.4".into(), ua: "UA".into() }],
        clicks_detail: vec![],
        metadata: "{}".into(),
        subaccount: None,
    };
    let text = event_log_text("abc", &detail);
    let expected = "Mandrill message abc\n\
subject: hi\n\
to:      to@example.com\n\
from:    from@example.com\n\
state:   sent\n\
ts:      1700000000 (11-14 22:13)\n\
tags:    welcome, new\n\
opens:   1 · clicks: 0\n\
\n── SMTP events ──\n  11-14 22:13 [sent] 250 OK\n\
\n── opens ──\n  — 1.2.3.4 UA\n\
\n── clicks ──\n(none)\n";
    assert_eq!(text, expected);
    let _ = ClickEvent { ts: 0, url: String::new(), ip: String::new(), ua: String::new() };
}

#[test]
fn labels_per_kind() {
    let m = Item::Message(msg("a", 1700000000));
    assert_eq!(m.primary_label(), "subject a");
    assert_eq!(m.secondary_label(""), "11-14 22:13  a@example.com  · delivered");
    let mut bare = msg("b", 0);
    bare.email = String::new();
    bare.subject = String::new();
    let b = Item::Message(bare);
    assert_eq!(b.primary_label(), "(no subject)");
    assert_eq!(b.secondary_label(""), "—  —  · delivered");

    let t = Item::Template(tmpl("slug", ""));
    assert_eq!(t.primary_label(), "slug");
    assert_eq!(t.secondary_label(""), "[draft] (no subject)");

    let g = Item::Tag(tag("welcome", 1000));
    assert_eq!(g.primary_label(), "welcome");
    assert_eq!(g.secondary_label("0.80"), "1000 sent · 0.80% bounce");

    let w = Item::Webhook(hook(1, "https://h", "SECRET123XYZ9", &["send", "open"]));
    assert_eq!(w.primary_label(), "https://h");
    assert_eq!(w.secondary_label(""), "send,open · key …XYZ9");
    let w = Item::Webhook(hook(1, "https://h", "", &[]));
    assert_eq!(w.secondary_label(""), "(no events) · key —");
}

#[test]
fn key_bindings() {
    assert_eq!(handle(Key::Char('3'), false), Some(Action::SwitchTab(2)));
    assert_eq!(handle(Key::Char('0'), false), None);
    assert_eq!(handle(Key::Char('c'), true), Some(Action::Quit));
    assert_eq!(handle(Key::Char('q'), true), None);
    assert_eq!(handle(Key::Char('q'), false), Some(Action::Quit));
    assert_eq!(handle(Key::Esc, false), Some(Action::Quit));
    assert_eq!(handle(Key::Char('j'), false), Some(Action::Move(1)));
    assert_eq!(handle(Key::Up, false), Some(Action::Move(-1)));
    assert_eq!(handle(Key::PageDown, false), Some(Action::Move(10)));
    assert_eq!(handle(Key::Char('G'), false), Some(Action::Bottom));
    assert_eq!(handle(Key::Enter, false), Some(Action::Open));
    assert_eq!(handle(Key::Char('L'), false), Some(Action::EventLog));
    assert_eq!(handle(Key::Tab, false), Some(Action::NextTab));
    assert_eq!(handle(Key::Other, false), None);
}

#[test]
fn actions_apply() {
    let mut app = standard_app();
    assert!(matches!(app.apply(Action::Refresh), Effect::Load));
    app.refresh_active(Ok(Fetched::Messages((0..30).map(|i| msg(&i.to_string(), i)).collect())), 1);
    app.apply(Action::Move(10));
    assert_eq!(app.active().data.selected, 10);
    app.apply(Action::Bottom);
    assert_eq!(app.active().data.selected, 29);
    app.apply(Action::Top);
    assert_eq!(app.active().data.selected, 0);
    assert!(matches!(app.apply(Action::PrevTab), Effect::Load));
    assert_eq!(app.active_tab, 3);
    assert!(matches!(app.apply(Action::NextTab), Effect::Done));
    assert_eq!(app.active_tab, 0);
    match app.apply(Action::Yank) {
        Effect::Copy(p) => assert_eq!(p, "29"),
        _ => panic!("expected a copy"),
    }
    match app.apply(Action::EventLog) {
        Effect::ShowEventLog(id) => assert_eq!(id, "29"),
        _ => panic!("expected the event log"),
    }
    assert!(matches!(app.apply(Action::Quit), Effect::Quit));
    assert!(matches!(app.apply(Action::SwitchTab(7)), Effect::Done));
    assert_eq!(app.active_tab, 0);
}

#[test]
fn apply_refusals_touch_only_the_status() {
    let mut app = standard_app();
    app.switch_tab(2);
    app.refresh_active(Ok(Fetched::Tags(vec![tag("", 1)])), 1);
    app.status = "before".into();
    assert!(matches!(app.apply(Action::Yank), Effect::Done));
    assert_eq!(app.status, "nothing to copy");
    assert!(matches!(app.apply(Action::EventLog), Effect::Done));
    assert_eq!(app.status, "L event log only available on messages");
    app.status = "kept".into();
    match app.apply(Action::Open) {
        Effect::OpenUrl(u) => assert_eq!(u, "https://mandrillapp.com/tags/info?tag="),
        _ => panic!("expected a URL"),
    }
    assert_eq!(app.status, "kept");
    assert_eq!(app.active_tab, 2);
    assert_eq!(app.active().data.items.len(), 1);
}

#[test]
fn loaded_items_match_the_tab_kind() {
    let mut app = standard_app();
    app.switch_tab(1);
    assert_eq!(app.refresh_request().kind, FetchKind::Templates);
    let f = Fetched::Templates(vec![tmpl("w", "Welcome"), tmpl("a", "Alpha")]);
    assert_eq!(f.kind(), FetchKind::Templates);
    app.refresh_active(Ok(f), 1);
    assert!(app.active().data.items.iter().all(|i| matches!(i, Item::Template(_))));
    assert_eq!(Fetched::Messages(vec![]).kind(), FetchKind::Messages);
    assert_eq!(Fetched::Tags(vec![]).kind(), FetchKind::Tags);
    assert_eq!(Fetched::Webhooks(vec![]).kind(), FetchKind::Webhooks);
}
