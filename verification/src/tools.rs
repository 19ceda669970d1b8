//! The MCP tools' side: their parameters, how a finder is named in them, and the texts
//! the tools answer with.

use vstd::prelude::*;
use crate::entities::{
    FlutterError, FlutterErrorView, FrameTiming, LogEntry, LogFilter, PerformanceReport,
    StartControlOutcome, spec_source_label,
};
use crate::finder::Finder;
use crate::text::{
    decimal, extend_chars, extend_str, from_chars, join, join_chars, lines, split_lines, str_eq,
    to_chars, views, zero_pad, zero_padded_chars, decimal_chars,
};
use crate::vm::buffers::errors_view;

verus! {

broadcast use vstd::string::group_string_axioms;

// ---------------------------------------------------------------------------
// Tool parameters
// ---------------------------------------------------------------------------

/// Parameters of `flutter_connect`.
#[derive(Debug)]
pub struct ConnectParams {
    /// Dart VM Service URI of the app (e.g. `ws://127.0.0.1:45678/ws`).
    pub uri: String,
}

/// Parameters of `flutter_tap`.
#[derive(Debug)]
pub struct TapParams {
    /// Search criterion: `key`, `text`, `tooltip`, `type` or `semantics`.
    pub by: String,
    /// Value searched for.
    pub value: String,
    /// Timeout of the Flutter Driver command; without it the pre-check decides.
    pub timeout_ms: Option<u64>,
}

/// Parameters of `flutter_pop`.
#[derive(Debug, Default)]
pub struct FlutterPopParams {
    /// Timeout of the back gesture; without it the pre-check decides.
    pub timeout_ms: Option<u64>,
}

/// Parameters of `flutter_enter_text`.
#[derive(Debug)]
pub struct EnterTextParams {
    pub by: String,
    pub value: String,
    /// Text to enter in the field.
    pub text: String,
    /// Timeout of the focusing tap; without it the pre-check decides.
    pub timeout_ms: Option<u64>,
}

/// Parameters of `flutter_get_text`.
#[derive(Debug)]
pub struct GetTextParams {
    pub by: String,
    pub value: String,
}

/// Parameters of `flutter_wait_for` and `flutter_wait_for_absent`.
#[derive(Debug)]
pub struct WaitForParams {
    pub by: String,
    pub value: String,
    /// Maximum wait in milliseconds (5000 by default).
    pub timeout_ms: Option<u64>,
}

/// Parameters of `flutter_screenshot`.
#[derive(Debug, Default)]
pub struct ScreenshotParams {
    /// File the PNG capture is also written to.
    pub save_path: Option<String>,
}

/// Parameters of `flutter_get_logs`.
#[derive(Debug, Default)]
pub struct GetLogsParams {
    /// Keep lines containing this text (case-insensitive).
    pub filter: Option<String>,
    /// Keep one source: `stdout`, `stderr` or `logging`.
    pub source: Option<String>,
    /// How many of the most recent lines (100 by default).
    pub limit: Option<u32>,
}

/// Parameters of `flutter_get_errors`.
#[derive(Debug, Default)]
pub struct GetErrorsParams {
    /// How many of the most recent errors (20 by default).
    pub limit: Option<u32>,
    /// Also capture by pausing on exceptions (off by default).
    pub precise: Option<bool>,
}

/// Parameters of `flutter_start_control`.
#[derive(Debug, Default)]
pub struct StartControlParams {
    /// Root of the Flutter project (`.` by default).
    pub project_root: Option<String>,
    /// Entrypoint relative to the root (`lib/main.dart` by default).
    pub entrypoint: Option<String>,
    /// Restore the entrypoint file right after the Hot Restart (off by default).
    pub revert_after_restart: Option<bool>,
}

/// Parameters of `flutter_get_performance`.
#[derive(Debug, Default)]
pub struct GetPerformanceParams {
    /// Analyse only the last milliseconds of the timeline (all of it by default).
    pub window_ms: Option<u64>,
    /// Include the per-frame detail (off by default).
    pub include_frames: Option<bool>,
}

// ---------------------------------------------------------------------------
// Defaults
// ---------------------------------------------------------------------------

/// The log filter of a `flutter_get_logs` call: the last 100 lines by default.
pub fn log_filter(params: GetLogsParams) -> (r: LogFilter)
    ensures
        r.contains == params.filter,
        r.source == params.source,
        r.limit == match params.limit {
            Some(l) => l as usize,
            None => 100,
        },
{
    let limit: usize = match params.limit {
        Some(l) => l as usize,
        None => 100,
    };
    LogFilter { contains: params.filter, source: params.source, limit }
}

/// The wait of `flutter_wait_for` and `flutter_wait_for_absent`: 5000 ms by default.
pub fn wait_timeout(params: &WaitForParams) -> (r: u64)
    ensures
        r == match params.timeout_ms {
            Some(t) => t,
            None => 5000,
        },
{
    match params.timeout_ms {
        Some(t) => t,
        None => 5000,
    }
}

/// How many errors `flutter_get_errors` shows: 20 by default.
pub fn errors_limit(params: &GetErrorsParams) -> (r: usize)
    ensures
        r == match params.limit {
            Some(l) => l as usize,
            None => 20,
        },
{
    match params.limit {
        Some(l) => l as usize,
        None => 20,
    }
}

/// Duration and sampling frequency of a `flutter_scroll` drag: 300 ms at 60 Hz by default.
pub fn scroll_defaults(duration_ms: Option<u64>, frequency: Option<u32>) -> (r: (u64, u32))
    ensures
        r.0 == match duration_ms {
            Some(d) => d,
            None => 300,
        },
        r.1 == match frequency {
            Some(f) => f,
            None => 60,
        },
{
    let d = match duration_ms {
        Some(d) => d,
        None => 300,
    };
    let f = match frequency {
        Some(f) => f,
        None => 60,
    };
    (d, f)
}

/// Whether `flutter_get_errors` also turns on capture by pausing: off by default.
pub fn precise_requested(params: &GetErrorsParams) -> (r: bool)
    ensures
        r == match params.precise {
            Some(b) => b,
            None => false,
        },
{
    match params.precise {
        Some(b) => b,
        None => false,
    }
}

/// Whether `flutter_get_performance` includes the per-frame detail: off by default.
pub fn include_frames_requested(params: &GetPerformanceParams) -> (r: bool)
    ensures
        r == match params.include_frames {
            Some(b) => b,
            None => false,
        },
{
    match params.include_frames {
        Some(b) => b,
        None => false,
    }
}

/// Project root, entrypoint and revert flag of a `flutter_start_control` call.
pub fn start_control_args(params: StartControlParams) -> (r: (String, String, bool))
    ensures
        r.0@ == match params.project_root {
            Some(p) => p@,
            None => "."@,
        },
        r.1@ == match params.entrypoint {
            Some(e) => e@,
            None => "lib/main.dart"@,
        },
        r.2 == match params.revert_after_restart {
            Some(b) => b,
            None => false,
        },
{
    let root = match params.project_root {
        Some(p) => p,
        None => String::from_str("."),
    };
    let entry = match params.entrypoint {
        Some(e) => e,
        None => String::from_str("lib/main.dart"),
    };
    let revert = match params.revert_after_restart {
        Some(b) => b,
        None => false,
    };
    (root, entry, revert)
}

// ---------------------------------------------------------------------------
// Finders named in a tool call
// ---------------------------------------------------------------------------

/// The error for an unknown search criterion.
pub open spec fn unknown_criterion_message(by: Seq<char>) -> Seq<char> {
    "Criterio de búsqueda desconocido '"@ + by
        + "'. Use 'key', 'text', 'tooltip', 'type' o 'semantics'"@
}

/// The finder a tool call names by criterion and value; text is matched exactly.
pub open spec fn is_named_finder(f: Finder, by: Seq<char>, value: Seq<char>) -> bool {
    if by == "key"@ {
        f matches Finder::Key(k) && k@ == value
    } else if by == "text"@ {
        f matches Finder::Text { text, exact } && text@ == value && exact
    } else if by == "tooltip"@ {
        f matches Finder::Tooltip(t) && t@ == value
    } else if by == "type"@ {
        f matches Finder::Type(t) && t@ == value
    } else if by == "semantics"@ {
        f matches Finder::SemanticsLabel(l) && l@ == value
    } else {
        false
    }
}

/// The criterion is one a tool call can name.
pub open spec fn is_known_criterion(by: Seq<char>) -> bool {
    by == "key"@ || by == "text"@ || by == "tooltip"@ || by == "type"@ || by == "semantics"@
}

/// The finder named by a tool call's `by` and `value`.
pub fn parse_finder(by: &str, value: &str) -> (r: Result<Finder, String>)
    ensures
        match r {
            Ok(f) => is_known_criterion(by@) && is_named_finder(f, by@, value@),
            Err(m) => !is_known_criterion(by@) && m@ == unknown_criterion_message(by@),
        },
{
    if str_eq(by, "key") {
        Ok(Finder::by_key(value))
    } else if str_eq(by, "text") {
        Ok(Finder::by_text(value, true))
    } else if str_eq(by, "tooltip") {
        Ok(Finder::by_tooltip(value))
    } else if str_eq(by, "type") {
        Ok(Finder::by_type(value))
    } else if str_eq(by, "semantics") {
        Ok(Finder::by_semantics_label(value))
    } else {
        let mut out: Vec<char> = Vec::new();
        extend_str(&mut out, "Criterio de búsqueda desconocido '");
        extend_str(&mut out, by);
        extend_str(&mut out, "'. Use 'key', 'text', 'tooltip', 'type' o 'semantics'");
        Err(from_chars(&out))
    }
}

// ---------------------------------------------------------------------------
// Answers
// ---------------------------------------------------------------------------

/// A time of day, UTC, `HH:MM:SS.mmm`, from milliseconds since the epoch; unknown
/// (`??:??:??.???`) for a non-positive timestamp.
pub open spec fn spec_format_timestamp(ts: i64) -> Seq<char> {
    if ts <= 0 {
        "??:??:??.???"@
    } else {
        let millis = ts as nat;
        let secs = (millis / 1000) % 86400;
        let ms = millis % 1000;
        zero_pad(decimal(secs / 3600), 2) + ":"@ + zero_pad(decimal((secs % 3600) / 60), 2) + ":"@
            + zero_pad(decimal(secs % 60), 2) + "."@ + zero_pad(decimal(ms), 3)
    }
}

/// The time of day of a timestamp in milliseconds, as `HH:MM:SS.mmm` (UTC).
pub fn format_timestamp_ms(ts: i64) -> (r: String)
    ensures
        r@ == spec_format_timestamp(ts),
{
    if ts <= 0 {
        return String::from_str("??:??:??.???");
    }
    let millis = ts as u64;
    let secs_of_day = (millis / 1000) % 86400;
    let ms = millis % 1000;
    let h = secs_of_day / 3600;
    let m = (secs_of_day % 3600) / 60;
    let s = secs_of_day % 60;
    let mut out = zero_padded_chars(h, 2);
    extend_str(&mut out, ":");
    extend_chars(&mut out, &zero_padded_chars(m, 2));
    extend_str(&mut out, ":");
    extend_chars(&mut out, &zero_padded_chars(s, 2));
    extend_str(&mut out, ".");
    extend_chars(&mut out, &zero_padded_chars(ms, 3));
    from_chars(&out)
}

/// The line shown for a log entry: `[time][source] message`.
pub open spec fn spec_log_line(e: LogEntry) -> Seq<char> {
    "["@ + spec_format_timestamp(e.timestamp_ms) + "]["@ + spec_source_label(e.source) + "] "@
        + e.message@
}

/// The answer of `flutter_get_logs`.
pub open spec fn spec_logs_text(entries: Seq<LogEntry>) -> Seq<char> {
    if entries.len() == 0 {
        "No hay logs que coincidan con el filtro (o aún no se registró ninguno desde la conexión)"@
    } else {
        join(Seq::new(entries.len(), |i: int| spec_log_line(entries[i])), "\n"@)
    }
}

/// The answer of `flutter_get_logs`: one line per entry, or a note that there is none.
pub fn logs_text(entries: &Vec<LogEntry>) -> (r: String)
    ensures
        r@ == spec_logs_text(entries@),
{
    if entries.len() == 0 {
        return String::from_str(
            "No hay logs que coincidan con el filtro (o aún no se registró ninguno desde la conexión)",
        );
    }
    let mut parts: Vec<Vec<char>> = Vec::new();
    let mut i: usize = 0;
    while i < entries.len()
        invariant
            i <= entries.len(),
            views(parts@) == Seq::new(i as nat, |k: int| spec_log_line(entries@[k])),
        decreases entries.len() - i,
    {
        let e = &entries[i];
        let mut line: Vec<char> = Vec::new();
        extend_str(&mut line, "[");
        let ts = format_timestamp_ms(e.timestamp_ms);
        extend_str(&mut line, ts.as_str());
        extend_str(&mut line, "][");
        extend_str(&mut line, e.source_label());
        extend_str(&mut line, "] ");
        extend_str(&mut line, e.message.as_str());
        let ghost before = parts@;
        parts.push(line);
        assert(views(parts@) == views(before).push(parts@[i as int]@));
        assert(views(parts@) == Seq::new((i + 1) as nat, |k: int| spec_log_line(entries@[k])));
        i = i + 1;
    }
    let nl = to_chars("\n");
    from_chars(&join_chars(&parts, &nl))
}

/// Stack lines shown per error.
pub const MAX_STACK_LINES: usize = 10;

/// The last `limit` elements of `s` (none when `limit` is zero).
pub open spec fn last_n<T>(s: Seq<T>, limit: nat) -> Seq<T> {
    if s.len() > limit {
        s.skip(s.len() - limit)
    } else {
        s
    }
}

/// The stack part of an error's block: its first lines and how many were left out.
pub open spec fn spec_stack_block(stack: Option<Seq<char>>) -> Seq<char> {
    match stack {
        Some(st) => {
            let ls = lines(st);
            let shown = join(ls.take(if ls.len() < MAX_STACK_LINES { ls.len() as int } else { MAX_STACK_LINES as int }), "\n"@);
            "\n"@ + shown + if ls.len() > MAX_STACK_LINES {
                "\n  ... ("@ + decimal((ls.len() - MAX_STACK_LINES) as nat) + " líneas más de stack, no incluidas)"@
            } else {
                Seq::empty()
            }
        },
        None => Seq::empty(),
    }
}

/// The block shown for an error: time, repeat count when it repeated, message, and the
/// start of its stack.
pub open spec fn spec_error_block(e: FlutterErrorView) -> Seq<char> {
    "["@ + spec_format_timestamp(e.timestamp_ms) + "]"@ + (if e.occurrences > 1 {
        " (x"@ + decimal(e.occurrences as nat) + ")"@
    } else {
        Seq::empty()
    }) + " "@ + e.message + spec_stack_block(e.stack_trace)
}

/// The answer of `flutter_get_errors` for the errors read and the number asked for.
pub open spec fn spec_errors_text(errors: Seq<FlutterErrorView>, limit: usize) -> Seq<char> {
    if errors.len() == 0 {
        "No se detectaron excepciones no manejadas desde la conexión"@
    } else {
        let shown = last_n(errors, limit as nat);
        join(Seq::new(shown.len(), |i: int| spec_error_block(shown[i])), "\n---\n"@)
    }
}

/// The stack part of an error's block.
fn stack_block(out: &mut Vec<char>, stack: &Option<String>)
    ensures
        final(out)@ == old(out)@ + spec_stack_block(crate::entities::opt_view(*stack)),
{
    match stack {
        Some(st) => {
            let sv = to_chars(st.as_str());
            let ls = split_lines(&sv);
            let n = if ls.len() < MAX_STACK_LINES { ls.len() } else { MAX_STACK_LINES };
            let mut shown: Vec<Vec<char>> = Vec::new();
            let mut i: usize = 0;
            while i < n
                invariant
                    i <= n <= ls.len(),
                    views(shown@) == views(ls@).take(i as int),
                decreases n - i,
            {
                let ghost before = shown@;
                let mut copy: Vec<char> = Vec::new();
                extend_chars(&mut copy, &ls[i]);
                shown.push(copy);
                assert(views(shown@) == views(before).push(ls@[i as int]@));
                assert(views(ls@).take(i + 1) == views(ls@).take(i as int).push(views(ls@)[i as int]));
                i = i + 1;
            }
            extend_str(out, "\n");
            let nl = to_chars("\n");
            extend_chars(out, &join_chars(&shown, &nl));
            if ls.len() > MAX_STACK_LINES {
                extend_str(out, "\n  ... (");
                extend_chars(out, &decimal_chars((ls.len() - MAX_STACK_LINES) as u64));
                extend_str(out, " líneas más de stack, no incluidas)");
            }
        },
        None => {},
    }
}

/// The answer of `flutter_get_errors`: the `limit` most recent errors, or a note that
/// there is none.
pub fn errors_text(errors: &Vec<FlutterError>, limit: usize) -> (r: String)
    ensures
        r@ == spec_errors_text(errors_view(errors@), limit),
{
    if errors.len() == 0 {
        return String::from_str("No se detectaron excepciones no manejadas desde la conexión");
    }
    let start: usize = if errors.len() > limit { errors.len() - limit } else { 0 };
    let ghost all = errors_view(errors@);
    let ghost shown = last_n(all, limit as nat);
    assert(shown == all.skip(start as int));
    let mut blocks: Vec<Vec<char>> = Vec::new();
    let mut i: usize = start;
    while i < errors.len()
        invariant
            start <= i <= errors.len(),
            all == errors_view(errors@),
            shown == all.skip(start as int),
            views(blocks@) == Seq::new((i - start) as nat, |k: int| spec_error_block(shown[k])),
        decreases errors.len() - i,
    {
        let e = &errors[i];
        let mut b: Vec<char> = Vec::new();
        extend_str(&mut b, "[");
        let ts = format_timestamp_ms(e.timestamp_ms);
        extend_str(&mut b, ts.as_str());
        extend_str(&mut b, "]");
        if e.occurrences > 1 {
            extend_str(&mut b, " (x");
            extend_chars(&mut b, &decimal_chars(e.occurrences as u64));
            extend_str(&mut b, ")");
        }
        extend_str(&mut b, " ");
        extend_str(&mut b, e.message.as_str());
        stack_block(&mut b, &e.stack_trace);
        assert(shown[i - start] == e@);
        assert(b@ == spec_error_block(e@));
        let ghost before = blocks@;
        blocks.push(b);
        assert(views(blocks@) == views(before).push(blocks@[(i - start) as int]@));
        assert(views(blocks@) == Seq::new((i + 1 - start) as nat, |k: int| spec_error_block(shown[k])));
        i = i + 1;
    }
    let sep = to_chars("\n---\n");
    from_chars(&join_chars(&blocks, &sep))
}

/// The answer of `flutter_start_control` for its outcome.
pub open spec fn spec_start_control_text(o: StartControlOutcome) -> Seq<char> {
    if o.pubspec_updated {
        "'flutter_driver' no era una dependencia resuelta del proyecto: se agregó a pubspec.yaml (dev_dependencies). Corré 'flutter pub get' y reiniciá por completo 'flutter run' (un Hot Restart no basta para una dependencia nueva), luego volvé a llamar a flutter_start_control. Entrypoint objetivo: "@
            + o.entrypoint_path@
    } else if o.already_enabled {
        "El entrypoint '"@ + o.entrypoint_path@
            + "' ya tenía Flutter Driver habilitado. Hot Restart ejecutado para asegurar que la extensión esté activa."@
    } else {
        "Flutter Driver inyectado en '"@ + o.entrypoint_path@
            + "' y Hot Restart ejecutado con éxito -- la app ahora acepta comandos de control."@
            + if o.reverted {
            " El archivo en disco fue revertido a su versión original tras el restart."@
        } else {
            Seq::empty()
        }
    }
}

/// The answer of `flutter_start_control`: what was patched and what the caller does next.
pub fn start_control_text(o: &StartControlOutcome) -> (r: String)
    ensures
        r@ == spec_start_control_text(*o),
{
    let mut out: Vec<char> = Vec::new();
    if o.pubspec_updated {
        extend_str(
            &mut out,
            "'flutter_driver' no era una dependencia resuelta del proyecto: se agregó a pubspec.yaml (dev_dependencies). Corré 'flutter pub get' y reiniciá por completo 'flutter run' (un Hot Restart no basta para una dependencia nueva), luego volvé a llamar a flutter_start_control. Entrypoint objetivo: ",
        );
        extend_str(&mut out, o.entrypoint_path.as_str());
    } else if o.already_enabled {
        extend_str(&mut out, "El entrypoint '");
        extend_str(&mut out, o.entrypoint_path.as_str());
        extend_str(
            &mut out,
            "' ya tenía Flutter Driver habilitado. Hot Restart ejecutado para asegurar que la extensión esté activa.",
        );
    } else {
        extend_str(&mut out, "Flutter Driver inyectado en '");
        extend_str(&mut out, o.entrypoint_path.as_str());
        extend_str(
            &mut out,
            "' y Hot Restart ejecutado con éxito -- la app ahora acepta comandos de control.",
        );
        if o.reverted {
            extend_str(&mut out, " El archivo en disco fue revertido a su versión original tras el restart.");
        } else {
            assert(out@ + Seq::<char>::empty() == out@);
        }
    }
    from_chars(&out)
}

/// `true` or `false`.
pub open spec fn bool_text(b: bool) -> Seq<char> {
    if b {
        "true"@
    } else {
        "false"@
    }
}

/// The detail line of a frame.
pub open spec fn spec_frame_detail(f: FrameTiming) -> Seq<char> {
    "#"@ + decimal(f.frame_number as nat) + ": build="@ + decimal(f.build_duration_us as nat) + "µs raster="@
        + decimal(f.raster_duration_us as nat) + "µs jank="@ + bool_text(f.is_janky)
}

/// The answer of `flutter_get_performance`; `jank_pct` is the share of janky frames, in
/// percent with one decimal.
pub open spec fn spec_performance_text(r: PerformanceReport, include_frames: bool, jank_pct: Seq<char>) -> Seq<char> {
    if r.frame_count == 0 {
        "No se registraron frames de Timeline en la ventana solicitada (puede que la app no haya generado actividad de UI desde la conexión, o que la ventana sea muy corta)"@
    } else {
        "Frames analizados: "@ + decimal(r.frame_count as nat) + "\nFrames con jank: "@ + decimal(
            r.janky_count as nat,
        ) + " ("@ + jank_pct + "%)\nBuild promedio: "@ + decimal(r.avg_build_us as nat) + "µs\nRaster promedio: "@
            + decimal(r.avg_raster_us as nat) + "µs"@ + match r.worst_frame {
            Some(w) => "\nPeor frame: #"@ + decimal(w.frame_number as nat) + " (build="@ + decimal(
                w.build_duration_us as nat,
            ) + "µs, raster="@ + decimal(w.raster_duration_us as nat) + "µs, jank="@ + bool_text(w.is_janky)
                + ")"@,
            None => Seq::empty(),
        } + if include_frames {
            "\n\nDetalle por frame:\n"@ + join(
                Seq::new(r.frames@.len(), |i: int| spec_frame_detail(r.frames@[i])),
                "\n"@,
            )
        } else {
            Seq::empty()
        }
    }
}

fn extend_bool(out: &mut Vec<char>, b: bool)
    ensures
        final(out)@ == old(out)@ + bool_text(b),
{
    if b {
        extend_str(out, "true");
    } else {
        extend_str(out, "false");
    }
}

/// The answer of `flutter_get_performance`: the summary, the worst frame and, when asked,
/// one line per frame; `jank_pct` is the share of janky frames, in percent with one decimal.
pub fn performance_text(r: &PerformanceReport, include_frames: bool, jank_pct: &str) -> (s: String)
    ensures
        s@ == spec_performance_text(*r, include_frames, jank_pct@),
{
    if r.frame_count == 0 {
        return String::from_str(
            "No se registraron frames de Timeline en la ventana solicitada (puede que la app no haya generado actividad de UI desde la conexión, o que la ventana sea muy corta)",
        );
    }
    let mut out: Vec<char> = Vec::new();
    extend_str(&mut out, "Frames analizados: ");
    extend_chars(&mut out, &decimal_chars(r.frame_count as u64));
    extend_str(&mut out, "\nFrames con jank: ");
    extend_chars(&mut out, &decimal_chars(r.janky_count as u64));
    extend_str(&mut out, " (");
    extend_str(&mut out, jank_pct);
    extend_str(&mut out, "%)\nBuild promedio: ");
    extend_chars(&mut out, &decimal_chars(r.avg_build_us));
    extend_str(&mut out, "µs\nRaster promedio: ");
    extend_chars(&mut out, &decimal_chars(r.avg_raster_us));
    extend_str(&mut out, "µs");
    let ghost base = out@;
    match &r.worst_frame {
        Some(w) => {
            extend_str(&mut out, "\nPeor frame: #");
            extend_chars(&mut out, &decimal_chars(w.frame_number));
            extend_str(&mut out, " (build=");
            extend_chars(&mut out, &decimal_chars(w.build_duration_us));
            extend_str(&mut out, "µs, raster=");
            extend_chars(&mut out, &decimal_chars(w.raster_duration_us));
            extend_str(&mut out, "µs, jank=");
            extend_bool(&mut out, w.is_janky);
            extend_str(&mut out, ")");
        },
        None => {
            assert(out@ == base + Seq::<char>::empty());
        },
    }
    let ghost with_worst = out@;
    if include_frames {
        extend_str(&mut out, "\n\nDetalle por frame:\n");
        let mut lines: Vec<Vec<char>> = Vec::new();
        let mut i: usize = 0;
        while i < r.frames.len()
            invariant
                i <= r.frames.len(),
                views(lines@) == Seq::new(i as nat, |k: int| spec_frame_detail(r.frames@[k])),
            decreases r.frames.len() - i,
        {
            let f = r.frames[i];
            let mut line: Vec<char> = Vec::new();
            extend_str(&mut line, "#");
            extend_chars(&mut line, &decimal_chars(f.frame_number));
            extend_str(&mut line, ": build=");
            extend_chars(&mut line, &decimal_chars(f.build_duration_us));
            extend_str(&mut line, "µs raster=");
            extend_chars(&mut line, &decimal_chars(f.raster_duration_us));
            extend_str(&mut line, "µs jank=");
            extend_bool(&mut line, f.is_janky);
            assert(line@ == spec_frame_detail(r.frames@[i as int]));
            let ghost before = lines@;
            lines.push(line);
            assert(views(lines@) == views(before).push(lines@[i as int]@));
            assert(views(lines@) == Seq::new((i + 1) as nat, |k: int| spec_frame_detail(r.frames@[k])));
            i = i + 1;
        }
        let nl = to_chars("\n");
        extend_chars(&mut out, &join_chars(&lines, &nl));
    } else {
        assert(out@ == with_worst + Seq::<char>::empty());
    }
    from_chars(&out)
}

} // verus!
