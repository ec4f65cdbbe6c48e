use mnml_msg_mandrill::mandrill::{
    extract_mandrill_error, format_mandrill_error, mask_env_value, message_url,
    messages_search_query, order_messages, order_tags, order_templates, order_webhooks, tag_url,
    template_url, urlencode, webhooks_url, Auth, AuthError, ClickEvent, Message, MessageDetail,
    OpenEvent, SmtpEvent, Tag, Template, Webhook, LIST_CAP, MESSAGES_LIMIT,
};
use mnml_msg_mandrill::mandrill::{response_outcome, BodyField, FieldValue};
use serde_json::Value;

fn s(v: &Value, k: &str) -> String {
    v.get(k).and_then(|x| x.as_str()).unwrap_or("").to_string()
}
fn os(v: &Value, k: &str) -> Option<String> {
    v.get(k).and_then(|x| x.as_str()).map(|x| x.to_string())
}
fn n(v: &Value, k: &str) -> i64 {
    v.get(k).and_then(|x| x.as_i64()).unwrap_or(0)
}
fn strs(v: &Value, k: &str) -> Vec<String> {
    v.get(k)
        .and_then(|x| x.as_array())
        .map(|a| a.iter().filter_map(|e| e.as_str().map(|e| e.to_string())).collect())
        .unwrap_or_default()
}

fn message_of(v: &Value) -> Message {
    Message {
        id: s(v, "_id"),
        subject: s(v, "subject"),
        email: s(v, "email"),
        state: s(v, "state"),
        ts: n(v, "ts"),
        sender: s(v, "sender"),
        tags: strs(v, "tags"),
        opens: n(v, "opens"),
        clicks: n(v, "clicks"),
    }
}

fn template_of(v: &Value) -> Template {
    Template {
        slug: s(v, "slug"),
        name: s(v, "name"),
        publish_name: s(v, "publish_name"),
        publish_code: os(v, "publish_code"),
        publish_subject: os(v, "publish_subject"),
        publish_from_email: os(v, "publish_from_email"),
        publish_from_name: os(v, "publish_from_name"),
        publish_text: os(v, "publish_text"),
        published_at: os(v, "published_at"),
        created_at: os(v, "created_at"),
        updated_at: os(v, "updated_at"),
        code: os(v, "code"),
        subject: os(v, "subject"),
        from_email: os(v, "from_email"),
        from_name: os(v, "from_name"),
        text: os(v, "text"),
        labels: strs(v, "labels"),
    }
}

fn tag_of(v: &Value) -> Tag {
    Tag {
        tag: s(v, "tag"),
        reputation: n(v, "reputation"),
        sent: n(v, "sent"),
        hard_bounces: n(v, "hard_bounces"),
        soft_bounces: n(v, "soft_bounces"),
        rejects: n(v, "rejects"),
        complaints: n(v, "complaints"),
        unsubs: n(v, "unsubs"),
        opens: n(v, "opens"),
        clicks: n(v, "clicks"),
        unique_opens: n(v, "unique_opens"),
        unique_clicks: n(v, "unique_clicks"),
    }
}

fn webhook_of(v: &Value) -> Webhook {
    Webhook {
        id: n(v, "id"),
        url: s(v, "url"),
        description: os(v, "description"),
        auth_key: s(v, "auth_key"),
        events: strs(v, "events"),
        created_at: os(v, "created_at"),
        last_sent_at: os(v, "last_sent_at"),
        batches_sent: n(v, "batches_sent"),
        events_sent: n(v, "events_sent"),
        last_error: os(v, "last_error"),
    }
}

fn list<T>(json: &str, f: fn(&Value) -> T) -> Vec<T> {
    let v: Value = serde_json::from_str(json).unwrap();
    v.as_array().unwrap().iter().map(f).collect()
}

fn bounce_rate(t: &Tag) -> f64 {
    let (num, den) = t.bounce_fraction();
    (num as f64) / (den as f64)
}

pub fn tag_named(name: &str, sent: i64) -> Tag {
    Tag {
        tag: name.into(),
        reputation: 0,
        sent,
        hard_bounces: 0,
        soft_bounces: 0,
        rejects: 0,
        complaints: 0,
        unsubs: 0,
        opens: 0,
        clicks: 0,
        unique_opens: 0,
        unique_clicks: 0,
    }
}

fn hook(id: i64, key: &str) -> Webhook {
    Webhook {
        id,
        url: "x".into(),
        description: None,
        auth_key: key.into(),
        events: vec![],
        created_at: None,
        last_sent_at: None,
        batches_sent: 0,
        events_sent: 0,
        last_error: None,
    }
}

#[test]
fn mandrill_error_envelope_extracted() {
    let body = r#"{"status":"error","code":-1,"name":"Invalid_Key","message":"Invalid API key"}"#;
    let msg = extract_mandrill_error(401, body);
    assert!(msg.starts_with("mandrill:"));
    assert!(msg.contains("Invalid_Key"));
    assert!(msg.contains("Invalid API key"));
}

#[test]
fn http_error_without_envelope_falls_back() {
    let msg = extract_mandrill_error(500, "<html>");
    assert_eq!(msg, "mandrill: HTTP 500");
}

#[test]
fn error_envelope_exact_text_and_defaults() {
    let body = r#"{"status":"error","code":-1,"name":"Invalid_Key","message":"Invalid API key"}"#;
    assert_eq!(extract_mandrill_error(401, body), "mandrill: Invalid_Key: Invalid API key");
    assert_eq!(extract_mandrill_error(400, r#"{"status":"error"}"#), "mandrill: error: (no message)");
    assert_eq!(extract_mandrill_error(404, r#"{"status":"ok","name":"x"}"#), "mandrill: HTTP 404");
    assert_eq!(extract_mandrill_error(0, "[1,2]"), "mandrill: HTTP 0");
    assert_eq!(
        format_mandrill_error(502, Some("error".into()), None, Some("m".into())),
        "mandrill: error: m"
    );
    assert_eq!(format_mandrill_error(65535, None, Some("n".into()), None), "mandrill: HTTP 65535");
}

#[test]
fn parses_messages_search_json() {
    let json = r#"[
        {"_id":"abc","subject":"hi","email":"to@example.com","state":"sent","ts":1700000000,"sender":"from@example.com","tags":["welcome"],"opens":1,"clicks":0},
        {"_id":"def","subject":"bounced","email":"bad@example.com","state":"bounced","ts":1699999000,"sender":"from@example.com","tags":[],"opens":0,"clicks":0}
    ]"#;
    let msgs: Vec<Message> = list(json, message_of);
    assert_eq!(msgs.len(), 2);
    assert_eq!(msgs[0].id, "abc");
    assert_eq!(msgs[1].state, "bounced");
}

#[test]
fn parses_message_info_with_smtp_events() {
    let json = r#"{
        "_id":"abc","subject":"hi","email":"to@example.com","sender":"from@example.com",
        "state":"sent","ts":1700000000,"tags":["welcome"],"opens":1,"clicks":0,
        "smtp_events":[
            {"ts":1700000001,"type":"sent","diag":"250 OK"},
            {"ts":1700000002,"type":"delivered","diag":""}
        ],
        "opens_detail":[],
        "clicks_detail":[],
        "metadata":{},
        "subaccount":null
    }"#;
    let v: Value = serde_json::from_str(json).unwrap();
    let smtp_events: Vec<SmtpEvent> = v["smtp_events"]
        .as_array()
        .unwrap()
        .iter()
        .map(|e| SmtpEvent { ts: n(e, "ts"), event_type: s(e, "type"), diag: s(e, "diag") })
        .collect();
    let detail = MessageDetail {
        id: s(&v, "_id"),
        subject: s(&v, "subject"),
        email: s(&v, "email"),
        sender: s(&v, "sender"),
        state: s(&v, "state"),
        ts: n(&v, "ts"),
        tags: strs(&v, "tags"),
        opens: n(&v, "opens"),
        clicks: n(&v, "clicks"),
        smtp_events,
        opens_detail: Vec::<OpenEvent>::new(),
        clicks_detail: Vec::<ClickEvent>::new(),
        metadata: v["metadata"].to_string(),
        subaccount: os(&v, "subaccount"),
    };
    assert_eq!(detail.smtp_events.len(), 2);
    assert_eq!(detail.smtp_events[0].event_type, "sent");
}

#[test]
fn parses_templates_list_json() {
    let json = r#"[
        {"slug":"welcome","name":"Welcome","publish_subject":"Welcome!","published_at":"2026-01-01 00:00:00","subject":"Welcome!","labels":[]},
        {"slug":"reset","name":"Password reset","publish_subject":null,"published_at":null,"subject":"Reset","labels":["auth"]}
    ]"#;
    let templates: Vec<Template> = list(json, template_of);
    assert_eq!(templates.len(), 2);
    assert_eq!(templates[0].publish_state(), "published");
    assert_eq!(templates[1].publish_state(), "draft");
    assert_eq!(templates[0].display_subject(), "Welcome!");
}

#[test]
fn parses_tags_list_json() {
    let json = r#"[
        {"tag":"welcome","reputation":100,"sent":1000,"hard_bounces":5,"soft_bounces":3,"rejects":0,"complaints":0,"unsubs":1,"opens":600,"clicks":200,"unique_opens":500,"unique_clicks":180}
    ]"#;
    let tags: Vec<Tag> = list(json, tag_of);
    assert_eq!(tags.len(), 1);
    assert_eq!(tags[0].tag, "welcome");
    let br = bounce_rate(&tags[0]);
    assert!((br - 0.008).abs() < 1e-6, "bounce_rate = {br}");
}

#[test]
fn tag_bounce_rate_zero_when_no_sends() {
    let t = tag_named("x", 0);
    assert_eq!(bounce_rate(&t), 0.0);
}

#[test]
fn bounce_fraction_counts_hard_and_soft() {
    let mut t = tag_named("x", 0);
    t.hard_bounces = 7;
    t.soft_bounces = 9;
    assert_eq!(t.bounce_fraction(), (0, 1));
    t.sent = 40;
    assert_eq!(t.bounce_fraction(), (16, 40));
    t.hard_bounces = i64::MAX;
    t.soft_bounces = i64::MAX;
    assert_eq!(t.bounce_fraction(), (2 * (i64::MAX as i128), 40));
}

#[test]
fn parses_webhooks_list_json() {
    let json = r#"[
        {"id":42,"url":"https://hooks.example.com/mandrill","description":"prod hook","auth_key":"SECRET123XYZ9","events":["send","open","click"],"created_at":"2026-01-01 00:00:00","batches_sent":100,"events_sent":250}
    ]"#;
    let hooks: Vec<Webhook> = list(json, webhook_of);
    assert_eq!(hooks.len(), 1);
    assert_eq!(hooks[0].auth_key_trailing(), "…XYZ9");
    assert_eq!(hooks[0].events, vec!["send", "open", "click"]);
}

#[test]
fn webhook_auth_key_trailing_handles_short_keys() {
    let w = hook(1, "abc");
    assert_eq!(w.auth_key_trailing(), "abc");
    let empty = hook(2, "");
    assert_eq!(empty.auth_key_trailing(), "—");
}

#[test]
fn auth_key_trailing_counts_chars() {
    assert_eq!(hook(1, "abcd").auth_key_trailing(), "abcd");
    assert_eq!(hook(1, "abcde").auth_key_trailing(), "…bcde");
    // Four characters stay whole, however many bytes they take.
    assert_eq!(hook(1, "abcé").auth_key_trailing(), "abcé");
    assert_eq!(hook(1, "xyzéé").auth_key_trailing(), "…yzéé");
    assert_eq!(hook(1, "ééééé").auth_key_trailing(), "…éééé");
}

#[test]
fn url_helpers_build_expected_urls() {
    assert_eq!(message_url("abc123"), "https://mandrillapp.com/activity?details=abc123");
    assert_eq!(template_url("welcome"), "https://mandrillapp.com/templates/code?id=welcome");
    assert_eq!(tag_url("user signup"), "https://mandrillapp.com/tags/info?tag=user%20signup");
    assert_eq!(webhooks_url(), "https://mandrillapp.com/settings/webhooks");
}

#[test]
fn urlencode_escapes_reserved_and_non_ascii_bytes() {
    assert_eq!(urlencode("AZaz09-_.~"), "AZaz09-_.~");
    assert_eq!(urlencode("a/b?c=d&e"), "a%2Fb%3Fc%3Dd%26e");
    assert_eq!(urlencode("é"), "%C3%A9");
    assert_eq!(urlencode(""), "");
    assert_eq!(urlencode("%"), "%25");
}

#[test]
fn urlencode_output_alphabet_and_injectivity() {
    assert_eq!(urlencode("ü"), "%C3%BC");
    let inputs = ["ü", "%C3%BC", "a b", "a+b", "a%20b", "~", "%7E", "日本", ""];
    let outputs: Vec<String> = inputs.iter().map(|x| urlencode(x)).collect();
    for out in &outputs {
        assert!(out
            .chars()
            .all(|c| c.is_ascii_alphanumeric() || "-_.~%".contains(c)));
    }
    for i in 0..inputs.len() {
        for j in 0..inputs.len() {
            if i != j {
                assert_ne!(outputs[i], outputs[j]);
            }
        }
    }
}

#[test]
fn auth_from_value() {
    let a = Auth::from_env_value(Some("test-key-abc123".into())).expect("loads");
    assert_eq!(a.api_key, "test-key-abc123");
    assert_eq!(a.api_base(), "https://mandrillapp.com/api/1.0");
    assert_eq!(a.endpoint("/users/ping.json"), "https://mandrillapp.com/api/1.0/users/ping.json");
    assert!(matches!(Auth::from_env_value(None), Err(AuthError::MissingKey)));
    assert!(matches!(Auth::from_env_value(Some(String::new())), Err(AuthError::MissingKey)));
    assert!(AuthError::MissingKey.message().contains("MANDRILL_API_KEY"));
}

#[test]
fn masked_env_values() {
    assert_eq!(mask_env_value(None), "(unset)");
    assert_eq!(mask_env_value(Some(String::new())), "(unset)");
    assert_eq!(mask_env_value(Some("abcdef".into())), "set (6 chars)");
    assert_eq!(mask_env_value(Some("abcdefg1234".into())), "set (11 chars, ends …1234)");
}

#[test]
fn search_query_covers_the_lookback() {
    // Day 739_000 from the Common Era is 2024-04-24.
    let q = messages_search_query(739_000, 14).unwrap();
    assert_eq!(q.query, "*");
    assert_eq!(q.date_to, "2024-04-24");
    assert_eq!(q.date_from, "2024-04-10");
    assert_eq!(q.limit, MESSAGES_LIMIT);
    let q = messages_search_query(739_000, 0).unwrap();
    assert_eq!(q.date_from, q.date_to);
    // Too far back for chrono: today is used instead.
    let q = messages_search_query(739_000, 106_751_991_167).unwrap();
    assert_eq!(q.date_from, "2024-04-24");
    // A look-back past i64::MAX wraps to a negative count of days.
    let q = messages_search_query(739_000, u64::MAX).unwrap();
    assert_eq!(q.date_from, "2024-04-25");
}

fn msg(id: &str, ts: i64) -> Message {
    Message {
        id: id.into(),
        subject: String::new(),
        email: String::new(),
        state: "sent".into(),
        ts,
        sender: String::new(),
        tags: vec![],
        opens: 0,
        clicks: 0,
    }
}

fn tmpl(slug: &str, name: &str) -> Template {
    Template {
        slug: slug.into(),
        name: name.into(),
        publish_name: String::new(),
        publish_code: None,
        publish_subject: None,
        publish_from_email: None,
        publish_from_name: None,
        publish_text: None,
        published_at: None,
        created_at: None,
        updated_at: None,
        code: None,
        subject: None,
        from_email: None,
        from_name: None,
        text: None,
        labels: vec![],
    }
}

#[test]
fn messages_most_recent_first_and_stable() {
    let raw = vec![msg("a", 10), msg("b", 30), msg("c", 10), msg("d", 20), msg("e", 30)];
    let ids: Vec<String> = order_messages(raw).into_iter().map(|m| m.id).collect();
    assert_eq!(ids, vec!["b", "e", "d", "a", "c"]);
}

#[test]
fn templates_by_lowercase_name() {
    let raw = vec![tmpl("1", "beta"), tmpl("2", "Alpha"), tmpl("3", "alpha"), tmpl("4", "Émile"), tmpl("5", "zeta")];
    let slugs: Vec<String> = order_templates(raw).into_iter().map(|t| t.slug).collect();
    assert_eq!(slugs, vec!["2", "3", "1", "5", "4"]);
    // Case does not decide the order: "beta" comes before "Zeta".
    let raw = vec![tmpl("z", "Zeta"), tmpl("b", "beta")];
    let slugs: Vec<String> = order_templates(raw).into_iter().map(|t| t.slug).collect();
    assert_eq!(slugs, vec!["b", "z"]);
}

#[test]
fn tags_by_sends_and_webhooks_by_id() {
    let raw = vec![tag_named("a", 5), tag_named("b", 50), tag_named("c", 5)];
    let names: Vec<String> = order_tags(raw).into_iter().map(|t| t.tag).collect();
    assert_eq!(names, vec!["b", "a", "c"]);
    let raw = vec![hook(9, ""), hook(-1, ""), hook(3, "")];
    let ids: Vec<i64> = order_webhooks(raw).into_iter().map(|w| w.id).collect();
    assert_eq!(ids, vec![-1, 3, 9]);
}

#[test]
fn lists_are_capped() {
    let raw: Vec<Message> = (0..(LIST_CAP as i64 + 20)).map(|i| msg(&i.to_string(), i)).collect();
    let out = order_messages(raw);
    assert_eq!(out.len(), LIST_CAP);
    assert_eq!(out[0].ts, LIST_CAP as i64 + 19);
    assert_eq!(out[LIST_CAP - 1].ts, 20);
}

#[test]
fn short_subject_and_template_fields() {
    let mut m = msg("a", 1);
    assert_eq!(m.short_subject(), "(no subject)");
    m.subject = "Hello".into();
    assert_eq!(m.short_subject(), "Hello");
    let mut t = tmpl("s", "n");
    assert_eq!(t.display_subject(), "");
    assert_eq!(t.publish_state(), "draft");
    t.subject = Some("draft subject".into());
    t.publish_subject = Some(String::new());
    t.published_at = Some(String::new());
    assert_eq!(t.display_subject(), "draft subject");
    assert_eq!(t.publish_state(), "draft");
    t.publish_subject = Some("live".into());
    t.published_at = Some("2026-01-01".into());
    assert_eq!(t.display_subject(), "live");
    assert_eq!(t.publish_state(), "published");
}

fn field_pairs(fields: &[BodyField]) -> Vec<(String, String)> {
    fields
        .iter()
        .map(|f| {
            let v = match &f.value {
                FieldValue::Text(t) => format!("text:{t}"),
                FieldValue::Int(n) => format!("int:{n}"),
                FieldValue::Count(n) => format!("count:{n}"),
            };
            (f.name.clone(), v)
        })
        .collect()
}

#[test]
fn request_fields_append_the_key() {
    let auth = Auth { api_key: "md-abc".into() };
    let r = auth.request_fields(Vec::new());
    assert_eq!(field_pairs(&r), vec![("key".to_string(), "text:md-abc".to_string())]);
    let r = auth.request_fields(vec![
        BodyField { name: "id".into(), value: FieldValue::Text("m1".into()) },
        BodyField { name: "key".into(), value: FieldValue::Text("stale".into()) },
        BodyField { name: "n".into(), value: FieldValue::Int(-3) },
    ]);
    assert_eq!(
        field_pairs(&r),
        vec![
            ("id".to_string(), "text:m1".to_string()),
            ("n".to_string(), "int:-3".to_string()),
            ("key".to_string(), "text:md-abc".to_string()),
        ]
    );
}

#[test]
fn search_query_body_fields() {
    let q = messages_search_query(738_000, 7).expect("in range");
    assert_eq!(
        field_pairs(&q.body_fields()),
        vec![
            ("query".to_string(), "text:*".to_string()),
            ("date_from".to_string(), format!("text:{}", q.date_from)),
            ("date_to".to_string(), format!("text:{}", q.date_to)),
            ("limit".to_string(), format!("count:{MESSAGES_LIMIT}")),
        ]
    );
}

#[test]
fn response_outcome_ok_on_2xx_else_error_envelope() {
    assert_eq!(response_outcome(200, "[1,2]"), Ok("[1,2]".to_string()));
    assert_eq!(response_outcome(299, "x"), Ok("x".to_string()));
    let env = r#"{"status":"error","code":-1,"name":"Invalid_Key","message":"Invalid API key"}"#;
    assert_eq!(
        response_outcome(500, env),
        Err("mandrill: Invalid_Key: Invalid API key".to_string())
    );
    assert_eq!(response_outcome(404, "nope"), Err("mandrill: HTTP 404".to_string()));
    assert_eq!(response_outcome(300, "x"), Err("mandrill: HTTP 300".to_string()));
    assert_eq!(response_outcome(199, "x"), Err("mandrill: HTTP 199".to_string()));
}
