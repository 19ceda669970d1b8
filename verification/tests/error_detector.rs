use flutter_mcp::entities::{ErrorSource, FlutterError};
use flutter_mcp::services::error_detector::ErrorDetector;

fn feed(detector: &mut ErrorDetector, lines: &[&str]) -> Option<FlutterError> {
    let mut result = None;
    for line in lines {
        if let Some(err) = detector.process_line(line, 1_000) {
            result = Some(err);
        }
    }
    result
}

#[test]
fn test_detects_flutter_red_screen_block() {
    let mut detector = ErrorDetector::new();
    let lines = [
        "══╡ EXCEPTION CAUGHT BY WIDGETS LIBRARY ╞══════════════════════",
        "The following _CastError was thrown building MyWidget:",
        "Null check operator used on a null value",
        "═══════════════════════════════════════════════════════════════",
    ];

    let error = feed(&mut detector, &lines).expect("Debe detectar un error");
    assert_eq!(error.source, ErrorSource::StdoutHeuristic);
    assert!(error.message.contains("EXCEPTION CAUGHT BY"));
    assert!(error
        .stack_trace
        .as_deref()
        .unwrap()
        .contains("Null check operator"));
}

#[test]
fn test_detects_plain_unhandled_exception() {
    let mut detector = ErrorDetector::new();
    let lines = [
        "Unhandled exception:",
        "Exception: algo salió mal",
        "#0      main.<anonymous closure> (file.dart:10:5)",
        "#1      main (file.dart:20:3)",
        "Otra línea de stdout no relacionada",
    ];

    let error = feed(&mut detector, &lines).expect("Debe detectar un error");
    assert_eq!(error.message, "Unhandled exception:");
    let stack = error.stack_trace.expect("Debe tener stack trace");
    assert!(stack.contains("Exception: algo salió mal"));
    assert!(stack.contains("#0"));
    assert!(!stack.contains("Otra línea"));
}

#[test]
fn test_detects_flutter_engine_unhandled_exception_format() {
    let mut detector = ErrorDetector::new();
    let lines = [
        "[ERROR:flutter/runtime/dart_vm_initializer.cc(40)] Unhandled Exception: Exception: probe de validación",
        "#0      Eval.<anonymous closure>.<anonymous closure> ()",
        "#1      new Future.delayed.<anonymous closure> (dart:async/future.dart:448:42)",
        "media_kit: NativeReferenceHolder: Allocated 12345",
    ];

    let error = feed(&mut detector, &lines).expect("Debe detectar un error");
    assert_eq!(error.source, ErrorSource::StdoutHeuristic);
    assert!(error
        .message
        .contains("Unhandled Exception: Exception: probe de validación"));
    let stack = error.stack_trace.expect("Debe tener stack trace");
    assert!(stack.contains("#0"));
    assert!(!stack.contains("media_kit"));
}

#[test]
fn test_ignores_unrelated_lines() {
    let mut detector = ErrorDetector::new();
    assert!(detector
        .process_line("Just a normal print statement", 1)
        .is_none());
    assert!(detector.process_line("Another one", 2).is_none());
}

// Own tests.

#[test]
fn flush_reports_a_pending_block_once() {
    let mut detector = ErrorDetector::new();
    assert!(detector.process_line("Unhandled exception:", 5).is_none());
    assert!(detector.process_line("Exception: boom", 5).is_none());
    let flushed = detector.flush(42).expect("debe cerrar el bloque pendiente");
    assert_eq!(flushed.message, "Unhandled exception:");
    assert_eq!(flushed.stack_trace.as_deref(), Some("Exception: boom"));
    assert_eq!(flushed.timestamp_ms, 42);
    assert_eq!(flushed.occurrences, 1);
    assert!(detector.flush(43).is_none());
}

#[test]
fn reported_error_has_exact_message_and_stack() {
    let mut detector = ErrorDetector::new();
    let lines = [
        "══╡ EXCEPTION CAUGHT BY RENDERING LIBRARY ╞══",
        "A RenderFlex overflowed",
        "",
        "by 12 pixels",
        "════════",
    ];
    let error = feed(&mut detector, &lines).unwrap();
    assert_eq!(error.message, "══╡ EXCEPTION CAUGHT BY RENDERING LIBRARY ╞══");
    assert_eq!(error.stack_trace.as_deref(), Some("A RenderFlex overflowed\n\nby 12 pixels"));
    assert_eq!(error.timestamp_ms, 1_000);
}
