use flutter_mcp::application::error::ApplicationError;
use flutter_mcp::application::use_cases::{
    filter_logs, join_path, performance_report, snapshot_from_tree, StartControl, StartControlAction,
    StartControlEvent,
};
use flutter_mcp::entities::{LogEntry, LogFilter, LogSource, StartControlOutcome};
use flutter_mcp::json::{JsonNumber, JsonValue};

fn s(v: &str) -> JsonValue {
    JsonValue::String(v.to_string())
}

fn num(n: i64) -> JsonValue {
    if n >= 0 {
        JsonValue::Number(JsonNumber::PosInt(n as u64))
    } else {
        JsonValue::Number(JsonNumber::NegInt(n))
    }
}

fn obj(fields: Vec<(&str, JsonValue)>) -> JsonValue {
    JsonValue::Object(fields.into_iter().map(|(k, v)| (k.to_string(), v)).collect())
}

struct Run {
    result: Result<StartControlOutcome, ApplicationError>,
    writes: Vec<(String, String)>,
    restarts: usize,
}

/// Drives a `start_control` run against an in-memory project.
fn run_start_control(connected: bool, files: &[(&str, &str)], entrypoint: &str, revert: bool) -> Run {
    let (mut st, mut act) = StartControl::begin(".", entrypoint, revert);
    let mut writes = Vec::new();
    let mut restarts = 0;
    loop {
        let ev = match act {
            StartControlAction::CheckConnection => StartControlEvent::Connected(connected),
            StartControlAction::ReadFile(path) => StartControlEvent::FileRead(
                files
                    .iter()
                    .find(|(p, _)| *p == path)
                    .map(|(_, c)| c.to_string())
                    .ok_or(ApplicationError::FileSystemError(format!("no existe {path}"))),
            ),
            StartControlAction::WriteFile { path, content } => {
                writes.push((path, content));
                StartControlEvent::FileWritten(Ok(()))
            }
            StartControlAction::HotRestart => {
                restarts += 1;
                StartControlEvent::HotRestarted(Ok(()))
            }
            StartControlAction::Finish(result) => return Run { result, writes, restarts },
        };
        let (next, a) = st.step(ev);
        st = next;
        act = a;
    }
}

#[test]
fn test_start_control_fails_when_not_connected() {
    let run = run_start_control(false, &[], "lib/main.dart", false);
    assert!(matches!(run.result, Err(ApplicationError::NotConnected)));
}

#[test]
fn test_start_control_adds_missing_pubspec_dependency_and_stops() {
    let run = run_start_control(true, &[("./pubspec.yaml", "name: my_app\n")], "lib/main.dart", false);
    let outcome = run.result.expect("debe agregar la dependencia y detenerse");
    assert!(outcome.pubspec_updated);
    assert!(!outcome.hot_restart_triggered);
    assert!(!outcome.already_enabled);
    assert_eq!(run.writes.len(), 1);
    assert_eq!(run.writes[0].0, "./pubspec.yaml");
    assert!(run.writes[0].1.contains("flutter_driver:\n    sdk: flutter"));
    assert_eq!(run.restarts, 0);
}

#[test]
fn test_start_control_injects_and_triggers_hot_restart() {
    let run = run_start_control(
        true,
        &[
            ("./pubspec.yaml", "dev_dependencies:\n  flutter_driver:\n    sdk: flutter\n"),
            ("./lib/main.dart", "void main() {\n  runApp(const MyApp());\n}\n"),
        ],
        "lib/main.dart",
        false,
    );
    let outcome = run.result.expect("debe inyectar y reiniciar");
    assert!(!outcome.already_enabled);
    assert!(!outcome.pubspec_updated);
    assert!(outcome.hot_restart_triggered);
    assert!(!outcome.reverted);
    assert_eq!(run.writes.len(), 1);
    assert_eq!(run.writes[0].0, "./lib/main.dart");
    assert!(run.writes[0].1.contains("enableFlutterDriverExtension();"));
    assert_eq!(run.restarts, 1);
}

#[test]
fn test_start_control_skips_injection_when_already_enabled() {
    let run = run_start_control(
        true,
        &[
            ("./pubspec.yaml", "dev_dependencies:\n  flutter_driver:\n    sdk: flutter\n"),
            (
                "./lib/main.dart",
                "void main() {\n  enableFlutterDriverExtension();\n  runApp(const MyApp());\n}\n",
            ),
        ],
        "lib/main.dart",
        false,
    );
    let outcome = run.result.expect("debe detectar que ya estaba habilitado");
    assert!(outcome.already_enabled);
    assert!(outcome.hot_restart_triggered);
    assert!(run.writes.is_empty());
}

#[test]
fn test_start_control_reverts_entrypoint_when_requested() {
    let original = "void main() {\n  runApp(const MyApp());\n}\n";
    let run = run_start_control(
        true,
        &[
            ("./pubspec.yaml", "dev_dependencies:\n  flutter_driver:\n    sdk: flutter\n"),
            ("./lib/main.dart", original),
        ],
        "lib/main.dart",
        true,
    );
    let outcome = run.result.expect("debe revertir tras el hot restart");
    assert!(outcome.reverted);
    assert_eq!(run.writes.len(), 2);
    assert!(run.writes[0].1.contains("enableFlutterDriverExtension"));
    assert_eq!(run.writes[1], ("./lib/main.dart".to_string(), original.to_string()));
}

#[test]
fn test_start_control_fails_when_main_not_found() {
    let run = run_start_control(
        true,
        &[
            ("./pubspec.yaml", "dev_dependencies:\n  flutter_driver:\n    sdk: flutter\n"),
            ("./lib/main.dart", "class Foo {}\n"),
        ],
        "lib/main.dart",
        false,
    );
    assert!(matches!(run.result, Err(ApplicationError::MainNotFound(_))));
}

#[test]
fn start_control_reports_a_missing_pubspec() {
    let run = run_start_control(true, &[], "lib/main.dart", false);
    match run.result {
        Err(ApplicationError::FileSystemError(m)) => {
            assert!(m.starts_with("No se encontró pubspec.yaml en './pubspec.yaml' (project_root='.')"))
        }
        _ => panic!("se esperaba un error de sistema de archivos"),
    }
}

#[test]
fn test_get_logs_applies_filter_and_limit() {
    let entries = vec![
        LogEntry { timestamp_ms: 1, source: LogSource::Stdout, message: "primer log".into() },
        LogEntry { timestamp_ms: 2, source: LogSource::Stderr, message: "error de red".into() },
        LogEntry { timestamp_ms: 3, source: LogSource::Stdout, message: "segundo log de red".into() },
    ];
    let filter = LogFilter { contains: Some("red".into()), source: Some("stdout".into()), limit: 10 };
    let logs = filter_logs(entries, &filter);
    assert_eq!(logs.len(), 1);
    assert_eq!(logs[0].message, "segundo log de red");
}

#[test]
fn test_get_logs_respects_limit_keeping_most_recent() {
    let entries: Vec<LogEntry> = (0..5)
        .map(|i| LogEntry { timestamp_ms: i, source: LogSource::Stdout, message: format!("log {i}") })
        .collect();
    let logs = filter_logs(entries, &LogFilter { contains: None, source: None, limit: 2 });
    assert_eq!(logs.len(), 2);
    assert_eq!(logs[0].message, "log 3");
    assert_eq!(logs[1].message, "log 4");
}

#[test]
fn log_filter_is_case_insensitive() {
    let entries = vec![
        LogEntry { timestamp_ms: 1, source: LogSource::Stderr, message: "Fallo de RED".into() },
        LogEntry { timestamp_ms: 2, source: LogSource::Logging { level: None, logger_name: None }, message: "red".into() },
    ];
    let logs = filter_logs(entries, &LogFilter { contains: Some("rEd".into()), source: Some("STDERR".into()), limit: 0 });
    assert_eq!(logs.len(), 1);
    assert_eq!(logs[0].message, "Fallo de RED");
}

fn ev(name: &str, ph: &str, ts: i64) -> JsonValue {
    obj(vec![("name", s(name)), ("ph", s(ph)), ("ts", num(ts))])
}

#[test]
fn test_get_performance_summarizes_raw_timeline_events() {
    let events = vec![
        ev("Animator::BeginFrame", "B", 0),
        ev("Animator::BeginFrame", "E", 8_000),
        ev("Rasterizer::DrawToSurfaces", "B", 8_000),
        ev("Rasterizer::DrawToSurfaces", "E", 14_000),
    ];
    let report = performance_report(events, None);
    assert_eq!(report.frame_count, 1);
    assert_eq!(report.janky_count, 0);
    assert_eq!(report.avg_build_us, 8_000);
    assert_eq!(report.avg_raster_us, 6_000);
}

#[test]
fn performance_window_keeps_only_recent_events() {
    let events = vec![
        ev("Animator::BeginFrame", "B", 0),
        ev("Animator::BeginFrame", "E", 8_000),
        ev("Rasterizer::DrawToSurfaces", "B", 8_000),
        ev("Rasterizer::DrawToSurfaces", "E", 14_000),
        ev("Animator::BeginFrame", "B", 100_000),
        ev("Animator::BeginFrame", "E", 120_000),
        ev("Rasterizer::DrawToSurfaces", "B", 120_000),
        ev("Rasterizer::DrawToSurfaces", "E", 130_000),
    ];
    let report = performance_report(events, Some(50));
    assert_eq!(report.frame_count, 1);
    assert_eq!(report.janky_count, 1);
    assert_eq!(report.avg_build_us, 20_000);
}

#[test]
fn paths_are_joined_with_one_slash() {
    assert_eq!(join_path("/app/", "/lib/main.dart"), "/app/lib/main.dart");
    assert_eq!(join_path(".", "pubspec.yaml"), "./pubspec.yaml");
}

#[test]
fn snapshot_of_an_empty_tree_is_an_internal_error() {
    let raw = obj(vec![("description", s("SizedBox"))]);
    assert_eq!(
        snapshot_from_tree(&raw),
        Err(ApplicationError::Internal("No se pudo extraer ningún widget visible del árbol".to_string()))
    );
    let text = obj(vec![("description", s("Text")), ("textPreview", s("hola"))]);
    assert_eq!(snapshot_from_tree(&text).unwrap().text.as_deref(), Some("hola"));
}

#[test]
fn error_messages() {
    assert_eq!(ApplicationError::NotConnected.message(), "No hay ninguna aplicación Flutter conectada");
    assert_eq!(
        ApplicationError::MainNotFound("./lib/main.dart".into()).message(),
        "No se encontró una función main() reconocible en './lib/main.dart' para inyectar Flutter Driver"
    );
    assert_eq!(ApplicationError::DriverError("x".into()).message(), "Error ejecutando comando de Flutter Driver: x");
}

#[test]
fn test_get_pruned_snapshot_success() {
    let raw = obj(vec![
        ("description", s("Scaffold")),
        (
            "children",
            JsonValue::Array(vec![obj(vec![
                ("description", s("ElevatedButton")),
                (
                    "properties",
                    JsonValue::Array(vec![obj(vec![("name", s("key")), ("description", s("[<'login_btn'>]"))])]),
                ),
                ("children", JsonValue::Array(vec![])),
            ])]),
        ),
    ]);
    let snapshot = snapshot_from_tree(&raw).expect("Snapshot should succeed");
    assert_eq!(snapshot.widget_type, "Scaffold");
    assert_eq!(snapshot.children.len(), 1);
    assert_eq!(snapshot.children[0].widget_type, "ElevatedButton");
    assert_eq!(snapshot.children[0].key.as_deref(), Some("[<'login_btn'>]"));
}
