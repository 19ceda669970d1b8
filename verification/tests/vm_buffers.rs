use base64::Engine;
use std::collections::VecDeque;
use flutter_mcp::entities::{ErrorSource, FlutterError, LogSource};
use flutter_mcp::json::{JsonNumber, JsonValue};
use flutter_mcp::vm::buffers::{
    push_bounded, push_error, SessionBuffers, StreamOutcome, ERROR_BUFFER_CAPACITY,
};

fn s(v: &str) -> JsonValue {
    JsonValue::String(v.to_string())
}

fn num(n: i64) -> JsonValue {
    if n >= 0 {
        JsonValue::Number(JsonNumber::PosInt(n as u64))
    } else {
        JsonValue::Number(JsonNumber::NegInt(n))
    }
}

fn obj(fields: Vec<(&str, JsonValue)>) -> JsonValue {
    JsonValue::Object(fields.into_iter().map(|(k, v)| (k.to_string(), v)).collect())
}

fn notify(stream: &str, event: JsonValue) -> JsonValue {
    obj(vec![
        ("method", s("streamNotify")),
        ("params", obj(vec![("streamId", s(stream)), ("event", event)])),
    ])
}

fn write_event(text: &str, ts: i64) -> JsonValue {
    obj(vec![("bytes", s(&base64::prelude::BASE64_STANDARD.encode(text))), ("timestamp", num(ts))])
}

fn error(msg: &str, ts: i64) -> FlutterError {
    FlutterError { timestamp_ms: ts, message: msg.to_string(), stack_trace: None, source: ErrorSource::StdoutHeuristic, occurrences: 1 }
}

#[test]
fn bounded_buffer_drops_the_oldest() {
    let mut b: VecDeque<u32> = VecDeque::new();
    for i in 0..5 {
        push_bounded(&mut b, i, 3);
    }
    assert_eq!(b.iter().copied().collect::<Vec<_>>(), vec![2, 3, 4]);
    let mut z: VecDeque<u32> = VecDeque::new();
    push_bounded(&mut z, 7, 0);
    assert_eq!(z.len(), 1);
}

#[test]
fn consecutive_repeats_collapse_into_one_error() {
    let mut errors: VecDeque<FlutterError> = VecDeque::new();
    push_error(&mut errors, error("A", 1));
    push_error(&mut errors, error("A", 2));
    push_error(&mut errors, error("A", 3));
    push_error(&mut errors, error("B", 4));
    push_error(&mut errors, error("A", 5));
    assert_eq!(errors.len(), 3);
    assert_eq!(errors[0].occurrences, 3);
    assert_eq!(errors[0].timestamp_ms, 3);
    assert_eq!(errors[1].message, "B");
    assert_eq!(errors[2].occurrences, 1);
}

#[test]
fn same_message_from_another_source_is_not_a_repeat() {
    let mut errors: VecDeque<FlutterError> = VecDeque::new();
    push_error(&mut errors, error("A", 1));
    let mut paused = error("A", 2);
    paused.source = ErrorSource::ExceptionPause;
    push_error(&mut errors, paused);
    assert_eq!(errors.len(), 2);
}

#[test]
fn error_buffer_keeps_the_most_recent_distinct_errors() {
    let mut errors: VecDeque<FlutterError> = VecDeque::new();
    for i in 0..(ERROR_BUFFER_CAPACITY + 5) {
        push_error(&mut errors, error(&format!("e{i}"), i as i64));
    }
    assert_eq!(errors.len(), ERROR_BUFFER_CAPACITY);
    assert_eq!(errors[0].message, "e5");
}

#[test]
fn stdout_events_are_logged_and_scanned_for_errors() {
    let mut b = SessionBuffers::new();
    let text = "Unhandled exception:\nException: boom\n#0      main (file.dart:1:1)\nfin\n";
    assert_eq!(b.handle_stream_event(&notify("Stdout", write_event(text, 9))), StreamOutcome::Handled);
    assert_eq!(b.logs().len(), 1);
    assert_eq!(b.logs()[0].message, "Unhandled exception:\nException: boom\n#0      main (file.dart:1:1)\nfin");
    assert_eq!(b.logs()[0].source, LogSource::Stdout);
    assert_eq!(b.errors().len(), 1);
    assert_eq!(b.errors()[0].message, "Unhandled exception:");
    assert_eq!(b.errors()[0].timestamp_ms, 9);
}

#[test]
fn stderr_and_logging_streams() {
    let mut b = SessionBuffers::new();
    b.handle_stream_event(&notify("Stderr", write_event("boom", 1)));
    let record = obj(vec![("logRecord", obj(vec![("message", obj(vec![("valueAsString", s("hola"))]))]))]);
    b.handle_stream_event(&notify("Logging", record));
    b.handle_stream_event(&notify("GC", obj(vec![])));
    assert_eq!(b.logs().len(), 2);
    assert_eq!(b.logs()[0].source, LogSource::Stderr);
    assert_eq!(b.logs()[1].message, "hola");
}

#[test]
fn pause_events_are_reported_only_in_precise_mode() {
    let mut b = SessionBuffers::new();
    let pause = obj(vec![
        ("kind", s("PauseException")),
        ("timestamp", num(33)),
        ("exception", obj(vec![("id", s("objects/5"))])),
    ]);
    assert_eq!(b.handle_stream_event(&notify("Debug", pause)), StreamOutcome::Handled);
    b.set_precise_errors(true);
    let pause = obj(vec![
        ("kind", s("PauseException")),
        ("timestamp", num(33)),
        ("exception", obj(vec![("id", s("objects/5"))])),
    ]);
    assert_eq!(
        b.handle_stream_event(&notify("Debug", pause)),
        StreamOutcome::Pause { exception_id: Some("objects/5".to_string()), timestamp_ms: 33 }
    );
    let mut e = error("Bad state", 33);
    e.source = ErrorSource::ExceptionPause;
    assert!(b.record_error(e));
    assert_eq!(b.errors().len(), 1);
}

#[test]
fn flush_records_a_pending_block() {
    let mut b = SessionBuffers::new();
    b.handle_stream_event(&notify("Stdout", write_event("Unhandled exception:\nException: x", 1)));
    assert_eq!(b.errors().len(), 0);
    assert!(b.flush_pending(50));
    assert_eq!(b.errors().len(), 1);
    assert_eq!(b.errors()[0].timestamp_ms, 50);
    b.clear();
    assert_eq!(b.logs().len(), 0);
    assert_eq!(b.errors().len(), 0);
    assert!(!b.precise_errors_enabled());
}

#[test]
fn a_saturated_repeat_is_refused() {
    let mut b = SessionBuffers::new();
    let mut e = error("X", 1);
    e.occurrences = u32::MAX;
    assert!(b.record_error(e));
    assert!(!b.record_error(error("X", 2)));
    assert_eq!(b.errors()[0].occurrences, u32::MAX);
    assert!(b.record_error(error("Y", 3)));
}

#[test]
fn stdout_overflows_only_on_a_saturated_repeat() {
    let mut b = SessionBuffers::new();
    let many_lines: String = (0..200).map(|i| format!("line {i}\n")).collect();
    assert_eq!(b.handle_stream_event(&notify("Stdout", write_event(&many_lines, 1))), StreamOutcome::Handled);
    let mut e = error("Unhandled exception:", 2);
    e.occurrences = u32::MAX;
    assert!(b.record_error(e));
    let text = "Unhandled exception:\nException: boom\n#0      main (file.dart:1:1)\nfin\n";
    assert_eq!(b.handle_stream_event(&notify("Stdout", write_event(text, 3))), StreamOutcome::Overflow);
    assert_eq!(b.errors()[0].occurrences, u32::MAX);
    let other = "Another exception was thrown: oops\nfin\n";
    assert_eq!(b.handle_stream_event(&notify("Stdout", write_event(other, 4))), StreamOutcome::Handled);
}
