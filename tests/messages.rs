use fables::bridge::{console_log_of, on_message, JsonArg, JsonField};
use fables::logger::Level;

fn record(raw: &str) -> Option<(Level, String)> {
    on_message(raw).map(|r| (r.level, r.message))
}

#[test]
fn console_error_message() {
    assert_eq!(
        record(r#"{"type":"console","level":"error","args":["a","b"]}"#),
        Some((Level::Error, "JS: a b".to_string()))
    );
}

#[test]
fn other_type_is_ignored() {
    assert_eq!(record(r#"{"type":"other"}"#), None);
    assert_eq!(record(r#"{"level":"error","args":["a"]}"#), None);
    assert_eq!(record(r#"{"type":1}"#), None);
    assert_eq!(record(r#"["console"]"#), None);
}

#[test]
fn malformed_json_is_ignored() {
    assert_eq!(record("{not json"), None);
    assert_eq!(record(""), None);
}

#[test]
fn level_names_map_to_severities() {
    assert_eq!(record(r#"{"type":"console","level":"warn","args":["w"]}"#), Some((Level::Warn, "JS: w".to_string())));
    assert_eq!(record(r#"{"type":"console","level":"info","args":["i"]}"#), Some((Level::Info, "JS: i".to_string())));
    assert_eq!(record(r#"{"type":"console","level":"log","args":["d"]}"#), Some((Level::Debug, "JS: d".to_string())));
    assert_eq!(record(r#"{"type":"console","level":"ERROR","args":[]}"#), Some((Level::Debug, "JS: ".to_string())));
}

#[test]
fn missing_fields_take_defaults() {
    assert_eq!(record(r#"{"type":"console"}"#), Some((Level::Debug, "JS: ".to_string())));
    assert_eq!(record(r#"{"type":"console","level":3,"args":"x"}"#), Some((Level::Debug, "JS: ".to_string())));
}

#[test]
fn non_string_args_use_json_text() {
    assert_eq!(
        record(r#"{"type":"console","level":"info","args":["n",1,true,null,[1,2]]}"#),
        Some((Level::Info, "JS: n 1 true null [1,2]".to_string()))
    );
}

#[test]
fn quotes_trimmed_at_ends_only() {
    assert_eq!(
        record(r#"{"type":"console","level":"info","args":["\"hi","say \"x\"","there\"\""]}"#),
        Some((Level::Info, "JS: hi say \"x\" there".to_string()))
    );
}

#[test]
fn duplicate_keys_last_wins() {
    assert_eq!(
        record(r#"{"type":"other","type":"console","args":["z"]}"#),
        Some((Level::Debug, "JS: z".to_string()))
    );
}

#[test]
fn console_log_from_fields() {
    let fields = vec![
        ("args".to_string(), JsonField::Array(vec![JsonArg::Str("x".to_string()), JsonArg::Other("2".to_string())])),
        ("level".to_string(), JsonField::Str("warn".to_string())),
        ("type".to_string(), JsonField::Str("console".to_string())),
    ];
    let r = console_log_of(&fields).unwrap();
    assert_eq!(r.level, Level::Warn);
    assert_eq!(r.message, "JS: x 2");
    let fields = vec![("type".to_string(), JsonField::Other)];
    assert!(console_log_of(&fields).is_none());
    let fields = vec![
        ("type".to_string(), JsonField::Str("console".to_string())),
        ("type".to_string(), JsonField::Str("other".to_string())),
    ];
    assert!(console_log_of(&fields).is_some());
}
