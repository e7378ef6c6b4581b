use tc_agent::config::DesktopConfig;
use tc_agent::errors::CommandError;
use tc_agent::state::{AppState, ReadOutcome, load_config, store_config_render};

fn cfg(
    api_url: Option<&str>,
    mcp_token: Option<&str>,
    clerk_session: Option<&str>,
    auto_start: Option<bool>,
) -> DesktopConfig {
    DesktopConfig {
        api_url: api_url.map(|s| s.to_string()),
        mcp_token: mcp_token.map(|s| s.to_string()),
        clerk_session: clerk_session.map(|s| s.to_string()),
        auto_start,
    }
}

fn load_text(text: &str) -> Result<DesktopConfig, CommandError> {
    let mut st = AppState::new();
    load_config(&mut st, ReadOutcome::Content(text.to_string()))
}

#[test]
fn round_trip_all_fields_set() {
    let c = cfg(
        Some("https://api.example.com"),
        Some("tok-123"),
        Some("sess-9"),
        Some(true),
    );
    let text = store_config_render(&c);
    let back = load_text(&text).unwrap();
    assert_eq!(back.api_url.as_deref(), Some("https://api.example.com"));
    assert_eq!(back.mcp_token.as_deref(), Some("tok-123"));
    assert_eq!(back.clerk_session.as_deref(), Some("sess-9"));
    assert_eq!(back.auto_start, Some(true));
}

#[test]
fn round_trip_partly_set() {
    let c = cfg(None, Some(""), None, Some(false));
    let back = load_text(&store_config_render(&c)).unwrap();
    assert_eq!(back.api_url, None);
    assert_eq!(back.mcp_token.as_deref(), Some(""));
    assert_eq!(back.clerk_session, None);
    assert_eq!(back.auto_start, Some(false));
}

#[test]
fn round_trip_with_escapes_and_unicode() {
    let tricky = "a\"b\\c\nd\te\u{8}f\u{c}g\rh\u{1}i é 😀";
    let c = cfg(Some(tricky), None, None, None);
    let back = load_text(&store_config_render(&c)).unwrap();
    assert_eq!(back.api_url.as_deref(), Some(tricky));
}

#[test]
fn render_unset_is_exact() {
    let c = cfg(None, None, None, None);
    assert_eq!(
        store_config_render(&c),
        "{\"api_url\": null, \"mcp_token\": null, \"clerk_session\": null, \"auto_start\": null}"
    );
}

#[test]
fn render_set_is_exact() {
    let c = cfg(Some("u"), Some("t"), None, Some(true));
    assert_eq!(
        store_config_render(&c),
        "{\"api_url\": \"u\", \"mcp_token\": \"t\", \"clerk_session\": null, \"auto_start\": true}"
    );
}

#[test]
fn missing_file_yields_unset_record() {
    let mut st = AppState::new();
    let r = load_config(&mut st, ReadOutcome::Missing).unwrap();
    assert_eq!(r.api_url, None);
    assert_eq!(r.mcp_token, None);
    assert_eq!(r.clerk_session, None);
    assert_eq!(r.auto_start, None);
}

#[test]
fn unreadable_file_is_io_error() {
    let mut st = AppState::new();
    let r = load_config(&mut st, ReadOutcome::Unreadable("denied".to_string()));
    match r {
        Err(CommandError::Io(d)) => assert_eq!(d, "denied"),
        _ => panic!("expected an I/O error"),
    }
    let msg = CommandError::Io("denied".to_string()).message();
    assert_eq!(msg, "I/O failure: denied");
}

#[test]
fn garbage_text_is_format_error() {
    match load_text("this is not json") {
        Err(CommandError::Format(_)) => {}
        _ => panic!("expected a format error"),
    }
}

#[test]
fn truncated_text_is_format_error() {
    assert!(matches!(
        load_text("{\"api_url\": \"x\""),
        Err(CommandError::Format(_))
    ));
    assert!(matches!(load_text(""), Err(CommandError::Format(_))));
    assert!(matches!(
        load_text("{\"api_url\": \"x\"} trailing"),
        Err(CommandError::Format(_))
    ));
}

#[test]
fn wrong_field_type_is_format_error() {
    assert!(matches!(
        load_text("{\"api_url\": 5}"),
        Err(CommandError::Format(_))
    ));
    assert!(matches!(
        load_text("{\"auto_start\": \"yes\"}"),
        Err(CommandError::Format(_))
    ));
}

#[test]
fn unknown_and_missing_fields_are_tolerated() {
    let text = "{\"api_url\": \"x\", \"extra\": {\"deep\": [1, 2.5e3, true, null, \"s\"]}, \"more\": -7}";
    let back = load_text(text).unwrap();
    assert_eq!(back.api_url.as_deref(), Some("x"));
    assert_eq!(back.mcp_token, None);
    assert_eq!(back.auto_start, None);
}

#[test]
fn null_fields_read_as_unset() {
    let back = load_text("{\"api_url\": null, \"auto_start\": null}").unwrap();
    assert_eq!(back.api_url, None);
    assert_eq!(back.auto_start, None);
}

#[test]
fn unicode_escapes_decode() {
    let back = load_text("{\"api_url\": \"\\u0041\\u00e9\\u20ac\\uD83D\\uDE00\\n\"}").unwrap();
    assert_eq!(back.api_url.as_deref(), Some("Aé€😀\n"));
}

#[test]
fn lone_surrogate_is_rejected() {
    assert!(matches!(
        load_text("{\"api_url\": \"\\uD83D\"}"),
        Err(CommandError::Format(_))
    ));
}

#[test]
fn serde_json_reads_our_rendering() {
    let c = cfg(Some("https://a/b?c=d"), Some("to\"k"), None, Some(false));
    let text = store_config_render(&c);
    let v: serde_json::Value = serde_json::from_str(&text).unwrap();
    assert_eq!(v["api_url"].as_str(), Some("https://a/b?c=d"));
    assert_eq!(v["mcp_token"].as_str(), Some("to\"k"));
    assert!(v["clerk_session"].is_null());
    assert_eq!(v["auto_start"].as_bool(), Some(false));
}

#[test]
fn we_read_serde_json_pretty_rendering() {
    let mut doc = serde_json::Map::new();
    doc.insert(
        "api_url".to_string(),
        serde_json::Value::String("https://x".to_string()),
    );
    doc.insert("auto_start".to_string(), serde_json::Value::Bool(true));
    doc.insert(
        "noise".to_string(),
        serde_json::Value::Array(vec![serde_json::Value::Null]),
    );
    let text = serde_json::to_string_pretty(&serde_json::Value::Object(doc)).unwrap();
    let back = load_text(&text).unwrap();
    assert_eq!(back.api_url.as_deref(), Some("https://x"));
    assert_eq!(back.auto_start, Some(true));
    assert_eq!(back.mcp_token, None);
}

#[test]
fn load_replaces_mirror_and_failure_keeps_it() {
    let mut st = AppState::new();
    let _ = load_config(&mut st, ReadOutcome::Content("{\"api_url\": \"kept\"}".to_string()));
    assert_eq!(st.config.api_url.as_deref(), Some("kept"));
    let _ = load_config(&mut st, ReadOutcome::Content("broken".to_string()));
    assert_eq!(st.config.api_url.as_deref(), Some("kept"));
}
