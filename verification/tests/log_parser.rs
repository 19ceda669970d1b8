use base64::Engine;
use flutter_mcp::entities::LogSource;
use flutter_mcp::json::{JsonNumber, JsonValue};
use flutter_mcp::services::log_parser::LogParser;

fn s(v: &str) -> JsonValue {
    JsonValue::String(v.to_string())
}

fn num(n: i64) -> JsonValue {
    if n >= 0 {
        JsonValue::Number(JsonNumber::PosInt(n as u64))
    } else {
        JsonValue::Number(JsonNumber::NegInt(n))
    }
}

fn obj(fields: Vec<(&str, JsonValue)>) -> JsonValue {
    JsonValue::Object(fields.into_iter().map(|(k, v)| (k.to_string(), v)).collect())
}

fn encode(text: &str) -> String {
    base64::prelude::BASE64_STANDARD.encode(text)
}

#[test]
fn test_parse_stdout_event_decodes_base64() {
    let event = obj(vec![("bytes", s(&encode("Hola mundo\n"))), ("timestamp", num(1_700_000_000_000))]);

    let entry = LogParser::parse_stdout_event(false, &event).expect("Debe parsear");
    assert_eq!(entry.message, "Hola mundo");
    assert_eq!(entry.source, LogSource::Stdout);
    assert_eq!(entry.timestamp_ms, 1_700_000_000_000);
}

#[test]
fn test_parse_stdout_event_marks_stderr() {
    let event = obj(vec![("bytes", s(&encode("boom"))), ("timestamp", num(1))]);
    let entry = LogParser::parse_stdout_event(true, &event).expect("Debe parsear");
    assert_eq!(entry.source, LogSource::Stderr);
}

#[test]
fn test_parse_stdout_event_ignores_empty_lines() {
    let event = obj(vec![("bytes", s(&encode("\n"))), ("timestamp", num(1))]);
    assert!(LogParser::parse_stdout_event(false, &event).is_none());
}

#[test]
fn test_parse_logging_event_extracts_structured_fields() {
    let event = obj(vec![(
        "logRecord",
        obj(vec![
            ("message", obj(vec![("valueAsString", s("usuario autenticado"))])),
            ("level", num(800)),
            ("loggerName", obj(vec![("valueAsString", s("auth"))])),
            ("time", num(1_700_000_000_500)),
        ]),
    )]);

    let entry = LogParser::parse_logging_event(&event).expect("Debe parsear");
    assert_eq!(entry.message, "usuario autenticado");
    match entry.source {
        LogSource::Logging { level, logger_name } => {
            assert_eq!(level, Some(800));
            assert_eq!(logger_name.as_deref(), Some("auth"));
        }
        _ => panic!("Se esperaba LogSource::Logging"),
    }
}

#[test]
fn test_parse_logging_event_without_message_returns_none() {
    let event = obj(vec![("logRecord", obj(vec![("level", num(800))]))]);
    assert!(LogParser::parse_logging_event(&event).is_none());
}

// Own tests: the outside decoders are really called.

#[test]
fn invalid_base64_is_ignored() {
    let event = obj(vec![("bytes", s("@@not base64@@")), ("timestamp", num(1))]);
    assert!(LogParser::parse_stdout_event(false, &event).is_none());
}

#[test]
fn invalid_utf8_is_replaced_and_timestamp_defaults_to_zero() {
    let bytes = base64::prelude::BASE64_STANDARD.encode([0x61u8, 0xff, 0x62]);
    let event = obj(vec![("bytes", s(&bytes))]);
    let entry = LogParser::parse_stdout_event(false, &event).unwrap();
    assert_eq!(entry.message, "a\u{FFFD}b");
    assert_eq!(entry.timestamp_ms, 0);
}

#[test]
fn empty_logger_name_is_dropped() {
    let event = obj(vec![(
        "logRecord",
        obj(vec![
            ("message", obj(vec![("valueAsString", s("hola"))])),
            ("loggerName", obj(vec![("valueAsString", s(""))])),
        ]),
    )]);
    let entry = LogParser::parse_logging_event(&event).unwrap();
    assert_eq!(entry.source, LogSource::Logging { level: None, logger_name: None });
    assert_eq!(entry.timestamp_ms, 0);
}

#[test]
fn stdout_entry_drops_trailing_line_feeds() {
    let e = LogParser::stdout_entry(true, "boom\n\n", 7).unwrap();
    assert_eq!(e.message, "boom");
    assert_eq!(e.timestamp_ms, 7);
    assert_eq!(e.source, LogSource::Stderr);
    assert_eq!(LogParser::stdout_entry(false, "a\nb\n", 1).unwrap().message, "a\nb");
    assert!(LogParser::stdout_entry(false, "\n\n", 1).is_none());
    assert!(LogParser::stdout_entry(false, "", 1).is_none());
}
