use flutter_mcp::entities::{
    ErrorSource, FlutterError, FrameTiming, LogEntry, LogSource, PerformanceReport, StartControlOutcome,
};
use flutter_mcp::finder::Finder;
use flutter_mcp::tools::{
    errors_limit, errors_text, format_timestamp_ms, include_frames_requested, log_filter, logs_text,
    parse_finder, precise_requested, scroll_defaults, start_control_args, start_control_text,
    wait_timeout, GetErrorsParams, GetLogsParams, GetPerformanceParams, StartControlParams,
    WaitForParams,
};
use flutter_mcp::files::LocalFileSystemAdapter;

#[test]
fn timestamps_are_shown_as_utc_time_of_day() {
    assert_eq!(format_timestamp_ms(0), "??:??:??.???");
    assert_eq!(format_timestamp_ms(-5), "??:??:??.???");
    assert_eq!(format_timestamp_ms(1_700_000_000_123), "22:13:20.123");
    assert_eq!(format_timestamp_ms(3_600_000 + 61_005), "01:01:01.005");
}

#[test]
fn finders_are_named_by_criterion() {
    assert_eq!(parse_finder("key", "btn"), Ok(Finder::by_key("btn")));
    assert_eq!(parse_finder("text", "Hola"), Ok(Finder::by_text("Hola", true)));
    assert_eq!(parse_finder("tooltip", "Back"), Ok(Finder::by_tooltip("Back")));
    assert_eq!(parse_finder("type", "ListView"), Ok(Finder::by_type("ListView")));
    assert_eq!(parse_finder("semantics", "Ok"), Ok(Finder::by_semantics_label("Ok")));
    assert_eq!(
        parse_finder("xpath", "//a"),
        Err("Criterio de búsqueda desconocido 'xpath'. Use 'key', 'text', 'tooltip', 'type' o 'semantics'".to_string())
    );
}

#[test]
fn logs_are_shown_one_per_line() {
    let entries = vec![
        LogEntry { timestamp_ms: 1_000, source: LogSource::Stdout, message: "hola".into() },
        LogEntry { timestamp_ms: 0, source: LogSource::Logging { level: None, logger_name: None }, message: "x".into() },
    ];
    assert_eq!(logs_text(&entries), "[00:00:01.000][stdout] hola\n[??:??:??.???][logging] x");
    assert_eq!(
        logs_text(&Vec::new()),
        "No hay logs que coincidan con el filtro (o aún no se registró ninguno desde la conexión)"
    );
}

fn err(msg: &str, occurrences: u32, stack: Option<String>) -> FlutterError {
    FlutterError { timestamp_ms: 1_000, message: msg.into(), stack_trace: stack, source: ErrorSource::StdoutHeuristic, occurrences }
}

#[test]
fn errors_are_shown_with_repeats_and_a_short_stack() {
    let stack: Vec<String> = (0..12).map(|i| format!("#{i}")).collect();
    let errors = vec![err("viejo", 1, None), err("A", 3, Some(stack.join("\n"))), err("B", 1, None)];
    let text = errors_text(&errors, 2);
    assert_eq!(
        text,
        "[00:00:01.000] (x3) A\n#0\n#1\n#2\n#3\n#4\n#5\n#6\n#7\n#8\n#9\n  ... (2 líneas más de stack, no incluidas)\n---\n[00:00:01.000] B"
    );
    assert_eq!(errors_text(&Vec::new(), 20), "No se detectaron excepciones no manejadas desde la conexión");
    assert_eq!(errors_text(&errors, 0), "");
}

#[test]
fn start_control_answers() {
    let mut o = StartControlOutcome {
        entrypoint_path: "./lib/main.dart".into(),
        already_enabled: false,
        pubspec_updated: false,
        hot_restart_triggered: true,
        reverted: true,
    };
    assert_eq!(
        start_control_text(&o),
        "Flutter Driver inyectado en './lib/main.dart' y Hot Restart ejecutado con éxito -- la app ahora acepta comandos de control. El archivo en disco fue revertido a su versión original tras el restart."
    );
    o.already_enabled = true;
    assert!(start_control_text(&o).starts_with("El entrypoint './lib/main.dart' ya tenía Flutter Driver habilitado."));
    o.pubspec_updated = true;
    assert!(start_control_text(&o).ends_with("Entrypoint objetivo: ./lib/main.dart"));
}

#[test]
fn tool_defaults() {
    let f = log_filter(GetLogsParams::default());
    assert_eq!(f.limit, 100);
    assert!(f.contains.is_none());
    let f = log_filter(GetLogsParams { filter: Some("x".into()), source: None, limit: Some(3) });
    assert_eq!(f.limit, 3);
    assert_eq!(f.contains.as_deref(), Some("x"));
    assert_eq!(wait_timeout(&WaitForParams { by: "key".into(), value: "v".into(), timeout_ms: None }), 5000);
    assert_eq!(errors_limit(&GetErrorsParams::default()), 20);
    let (root, entry, revert) = start_control_args(StartControlParams::default());
    assert_eq!((root.as_str(), entry.as_str(), revert), (".", "lib/main.dart", false));
    let _ = LocalFileSystemAdapter::new();
}

#[test]
fn performance_answer() {
    let f0 = FrameTiming { frame_number: 0, build_duration_us: 4_000, raster_duration_us: 4_000, is_janky: false };
    let f1 = FrameTiming { frame_number: 1, build_duration_us: 20_000, raster_duration_us: 10_000, is_janky: true };
    let report = PerformanceReport {
        frame_count: 2,
        janky_count: 1,
        avg_build_us: 12_000,
        avg_raster_us: 7_000,
        worst_frame: Some(f1),
        frames: vec![f0, f1],
    };
    assert_eq!(
        flutter_mcp::tools::performance_text(&report, true, "50.0"),
        "Frames analizados: 2\nFrames con jank: 1 (50.0%)\nBuild promedio: 12000µs\nRaster promedio: 7000µs\nPeor frame: #1 (build=20000µs, raster=10000µs, jank=true)\n\nDetalle por frame:\n#0: build=4000µs raster=4000µs jank=false\n#1: build=20000µs raster=10000µs jank=true"
    );
    let empty = PerformanceReport { frame_count: 0, janky_count: 0, avg_build_us: 0, avg_raster_us: 0, worst_frame: None, frames: vec![] };
    assert!(flutter_mcp::tools::performance_text(&empty, false, "").starts_with("No se registraron frames"));
}

#[test]
fn scroll_defaults_are_300_ms_at_60_hz() {
    assert_eq!(scroll_defaults(None, None), (300, 60));
    assert_eq!(scroll_defaults(Some(120), None), (120, 60));
    assert_eq!(scroll_defaults(None, Some(30)), (300, 30));
}

#[test]
fn precise_mode_and_frame_detail_are_off_by_default() {
    assert!(!precise_requested(&GetErrorsParams { limit: None, precise: None }));
    assert!(precise_requested(&GetErrorsParams { limit: None, precise: Some(true) }));
    assert!(!include_frames_requested(&GetPerformanceParams { window_ms: None, include_frames: None }));
    assert!(include_frames_requested(&GetPerformanceParams { window_ms: Some(5), include_frames: Some(true) }));
}
