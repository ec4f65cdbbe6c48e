use mnml_msg_mandrill::config::{default_lookback_days, default_refresh, Config, ConfigError, Tab};

fn tab(name: &str, kind: &str) -> Tab {
    Tab { name: name.to_string(), kind: kind.to_string() }
}

/// Builds a `Config` from TOML text the way the front end's serde copy
/// does: missing numbers take their defaults, missing tabs are none.
fn config_from_toml(text: &str) -> Config {
    let table: toml::Table = toml::from_str(text).expect("example parses");
    let refresh = table
        .get("refresh_interval_secs")
        .and_then(|v| v.as_integer())
        .map(|v| v as u64)
        .unwrap_or_else(default_refresh);
    let lookback = table
        .get("messages_lookback_days")
        .and_then(|v| v.as_integer())
        .map(|v| v as u64)
        .unwrap_or_else(default_lookback_days);
    let mut tabs = Vec::new();
    if let Some(arr) = table.get("tabs").and_then(|v| v.as_array()) {
        for t in arr {
            let name = t.get("name").and_then(|v| v.as_str()).unwrap().to_string();
            let kind = t.get("kind").and_then(|v| v.as_str()).unwrap().to_string();
            tabs.push(Tab { name, kind });
        }
    }
    Config { refresh_interval_secs: refresh, messages_lookback_days: lookback, tabs }
}

#[test]
fn example_config_parses_and_validates() {
    let cfg = config_from_toml(Config::EXAMPLE);
    cfg.validate().expect("example validates");
    assert_eq!(cfg.tabs.len(), 4);
    assert_eq!(cfg.messages_lookback_days, 14);
}

#[test]
fn rejects_no_tabs() {
    let cfg = Config { refresh_interval_secs: 60, messages_lookback_days: 14, tabs: vec![] };
    assert!(cfg.validate().is_err());
}

#[test]
fn rejects_unknown_kind() {
    let cfg = Config {
        refresh_interval_secs: 60,
        messages_lookback_days: 14,
        tabs: vec![Tab { name: "bad".into(), kind: "bogus".into() }],
    };
    assert!(cfg.validate().is_err());
}

#[test]
fn rejects_zero_lookback() {
    let cfg = Config {
        refresh_interval_secs: 60,
        messages_lookback_days: 0,
        tabs: vec![Tab { name: "x".into(), kind: "messages".into() }],
    };
    assert!(cfg.validate().is_err());
}

#[test]
fn defaults_are_sixty_seconds_and_fourteen_days() {
    assert_eq!(default_refresh(), 60);
    assert_eq!(default_lookback_days(), 14);
    let cfg = config_from_toml("[[tabs]]\nname = \"t\"\nkind = \"tags\"\n");
    assert_eq!(cfg.refresh_interval_secs, 60);
    assert_eq!(cfg.messages_lookback_days, 14);
    assert!(cfg.validate().is_ok());
}

#[test]
fn validation_errors_come_in_rule_order() {
    // No tabs wins over a zero look-back.
    let cfg = Config { refresh_interval_secs: 60, messages_lookback_days: 0, tabs: vec![] };
    assert!(matches!(cfg.validate(), Err(ConfigError::NoTabs)));
    // A zero look-back wins over a bad kind.
    let cfg = Config {
        refresh_interval_secs: 60,
        messages_lookback_days: 0,
        tabs: vec![tab("x", "bogus")],
    };
    assert!(matches!(cfg.validate(), Err(ConfigError::ZeroLookback)));
    // The first bad tab is the one reported.
    let cfg = Config {
        refresh_interval_secs: 60,
        messages_lookback_days: 3,
        tabs: vec![tab("a", "tags"), tab("b", "nope"), tab("c", "worse")],
    };
    match cfg.validate() {
        Err(ConfigError::UnknownKind { index, name, kind }) => {
            assert_eq!(index, 1);
            assert_eq!(name, "b");
            assert_eq!(kind, "nope");
        }
        other => panic!("unexpected {other:?}"),
    }
}

#[test]
fn validation_messages() {
    assert_eq!(ConfigError::NoTabs.message(), "config: at least one [[tabs]] entry required");
    assert_eq!(
        ConfigError::ZeroLookback.message(),
        "config: messages_lookback_days must be at least 1"
    );
    let e = ConfigError::UnknownKind { index: 2, name: "x".into(), kind: "bo\"gus".into() };
    assert_eq!(
        e.message(),
        "tab #2 (x): unknown kind \"bo\\\"gus\" (expected \"messages\", \"templates\", \"tags\", or \"webhooks\")"
    );
}

#[test]
fn every_kind_is_accepted() {
    for k in ["messages", "templates", "tags", "webhooks"] {
        let cfg = Config {
            refresh_interval_secs: 0,
            messages_lookback_days: 1,
            tabs: vec![tab("t", k)],
        };
        assert!(cfg.validate().is_ok(), "{k}");
    }
    for k in ["Messages", "message", "", "tags "] {
        let cfg = Config {
            refresh_interval_secs: 0,
            messages_lookback_days: 1,
            tabs: vec![tab("t", k)],
        };
        assert!(cfg.validate().is_err(), "{k}");
    }
}
