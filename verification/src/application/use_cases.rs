//! Decisions of the use cases: log filtering, the performance report over a timeline
//! window, and the `start_control` flow as a state machine driven by its caller.

use vstd::prelude::*;
use crate::application::error::ApplicationError;
use crate::entities::{LogEntry, LogFilter, PerformanceReport, StartControlOutcome, WidgetNode, spec_source_label};
use crate::services::tree_pruner::{TreePruner, spec_prune};
use crate::json::{JsonValue, spec_get_i64};
use crate::services::driver_injector::{
    DriverInjector, PubspecEditor, spec_add_flutter_driver_dev_dependency, spec_already_enabled,
    spec_declares_flutter_driver, spec_inject,
};
use crate::services::timeline_analyzer::{
    DEFAULT_FRAME_BUDGET_US, TimelineAnalyzer, is_summary_of, spec_frame_timings,
};
use crate::text::{
    contains, contains_exec, eq_ignore_ascii_case, eq_ignore_ascii_case_exec, extend_chars,
    extend_str, from_chars, lowercase, to_chars, to_lowercase, trim_end_char,
    trim_end_char_chars, trim_start_char, trim_start_char_chars,
};

verus! {

broadcast use vstd::string::group_string_axioms;

// ---------------------------------------------------------------------------
// Snapshot
// ---------------------------------------------------------------------------

/// The depth of the diagnostics tree a snapshot asks for.
pub const SNAPSHOT_TREE_DEPTH: u32 = 50;

/// The UI snapshot of a raw diagnostics tree: its pruned tree, or an internal error when
/// nothing visible remains.
pub fn snapshot_from_tree(raw: &JsonValue) -> (r: Result<WidgetNode, ApplicationError>)
    ensures
        match spec_prune(*raw) {
            Some(v) => r matches Ok(n) && n@ == v,
            None => r matches Err(ApplicationError::Internal(m)) && m@
                == "No se pudo extraer ningún widget visible del árbol"@,
        },
{
    match TreePruner::prune_diagnostics_tree(raw) {
        Some(n) => Ok(n),
        None => Err(ApplicationError::Internal(String::from_str("No se pudo extraer ningún widget visible del árbol"))),
    }
}

// ---------------------------------------------------------------------------
// Logs
// ---------------------------------------------------------------------------

/// The entry passes the filter's source and text criteria.
pub open spec fn passes_filter(e: LogEntry, filter: LogFilter) -> bool {
    &&& match filter.source {
        Some(s) => eq_ignore_ascii_case(spec_source_label(e.source), s@),
        None => true,
    }
    &&& match filter.contains {
        Some(n) => contains(lowercase(e.message@), lowercase(n@)),
        None => true,
    }
}

/// The entries that pass the filter, in order.
pub open spec fn spec_filtered(entries: Seq<LogEntry>, filter: LogFilter) -> Seq<LogEntry>
    decreases entries.len(),
{
    if entries.len() == 0 {
        Seq::empty()
    } else if passes_filter(entries.last(), filter) {
        spec_filtered(entries.drop_last(), filter).push(entries.last())
    } else {
        spec_filtered(entries.drop_last(), filter)
    }
}

/// The last `limit` entries (all of them when `limit` is zero).
pub open spec fn spec_most_recent<T>(s: Seq<T>, limit: usize) -> Seq<T> {
    if limit > 0 && s.len() > limit {
        s.skip(s.len() - limit)
    } else {
        s
    }
}

/// Filters accumulated logs by source (ASCII case-insensitive) and text
/// (case-insensitive), keeping the `limit` most recent ones.
pub fn filter_logs(entries: Vec<LogEntry>, filter: &LogFilter) -> (r: Vec<LogEntry>)
    ensures
        r@ == spec_most_recent(spec_filtered(entries@, *filter), filter.limit),
{
    let ghost orig = entries@;
    let mut entries = entries;
    let needle: Option<Vec<char>> = match &filter.contains {
        Some(n) => {
            let lower = to_lowercase(n.as_str());
            Some(to_chars(lower.as_str()))
        },
        None => None,
    };
    let source: Option<Vec<char>> = match &filter.source {
        Some(s) => Some(to_chars(s.as_str())),
        None => None,
    };
    let mut kept: Vec<LogEntry> = Vec::new();
    let n = entries.len();
    let mut k: usize = 0;
    while k < n
        invariant
            k <= n == orig.len(),
            entries@ == orig.skip(k as int),
            kept@ == spec_filtered(orig.take(k as int), *filter),
            match needle {
                Some(v) => filter.contains matches Some(c) && v@ == lowercase(c@),
                None => filter.contains is None,
            },
            match source {
                Some(v) => filter.source matches Some(c) && v@ == c@,
                None => filter.source is None,
            },
        decreases n - k,
    {
        let e = entries.remove(0);
        proof {
            assert(e == orig[k as int]);
            assert(entries@ == orig.skip(k + 1));
            let t = orig.take(k + 1);
            assert(t.drop_last() == orig.take(k as int));
            assert(t.last() == e);
        }
        let source_ok = match &source {
            Some(s) => {
                let label = to_chars(e.source_label());
                eq_ignore_ascii_case_exec(&label, s)
            },
            None => true,
        };
        let text_ok = match &needle {
            Some(nv) => {
                let lower = to_lowercase(e.message.as_str());
                let hay = to_chars(lower.as_str());
                contains_exec(&hay, nv)
            },
            None => true,
        };
        if source_ok && text_ok {
            kept.push(e);
        }
        k = k + 1;
    }
    assert(orig.take(n as int) == orig);
    if filter.limit > 0 && kept.len() > filter.limit {
        let split_at = kept.len() - filter.limit;
        let ghost all = kept@;
        let tail = kept.split_off(split_at);
        assert(tail@ == all.skip(split_at as int));
        return tail;
    }
    kept
}

// ---------------------------------------------------------------------------
// Performance
// ---------------------------------------------------------------------------

/// The largest integer `ts` among the events.
pub open spec fn spec_max_ts(events: Seq<JsonValue>) -> Option<i64>
    decreases events.len(),
{
    if events.len() == 0 {
        None
    } else {
        let rest = spec_max_ts(events.drop_last());
        match spec_get_i64(events.last(), "ts"@) {
            Some(t) => match rest {
                Some(m) => if t > m {
                    Some(t)
                } else {
                    Some(m)
                },
                None => Some(t),
            },
            None => rest,
        }
    }
}

/// The events whose integer `ts` is at least `cutoff`.
pub open spec fn spec_events_since(events: Seq<JsonValue>, cutoff: int) -> Seq<JsonValue>
    decreases events.len(),
{
    if events.len() == 0 {
        Seq::empty()
    } else {
        let rest = spec_events_since(events.drop_last(), cutoff);
        match spec_get_i64(events.last(), "ts"@) {
            Some(t) => if t >= cutoff {
                rest.push(events.last())
            } else {
                rest
            },
            None => rest,
        }
    }
}

/// The events of the last `window_ms` milliseconds of the timeline (all of them
/// without a window, or when no event has an integer timestamp).
pub open spec fn spec_window(events: Seq<JsonValue>, window_ms: Option<u64>) -> Seq<JsonValue> {
    match window_ms {
        None => events,
        Some(w) => match spec_max_ts(events) {
            None => events,
            Some(m) => spec_events_since(events, m - (w as i64) * 1000),
        },
    }
}

/// The performance report of the timeline events, optionally restricted to the last
/// `window_ms` milliseconds.
pub fn performance_report(events: Vec<JsonValue>, window_ms: Option<u64>) -> (r: PerformanceReport)
    ensures
        is_summary_of(r, spec_frame_timings(spec_window(events@, window_ms), DEFAULT_FRAME_BUDGET_US)),
{
    let ghost orig = events@;
    let windowed = match window_ms {
        None => events,
        Some(w) => {
            let mut max_ts: Option<i64> = None;
            let mut i: usize = 0;
            while i < events.len()
                invariant
                    i <= events.len(),
                    max_ts == spec_max_ts(events@.take(i as int)),
                decreases events.len() - i,
            {
                proof {
                    let t = events@.take(i + 1);
                    assert(t.drop_last() == events@.take(i as int));
                    assert(t.last() == events@[i as int]);
                }
                match events[i].get_i64("ts") {
                    Some(t) => {
                        max_ts = match max_ts {
                            Some(m) => if t > m {
                                Some(t)
                            } else {
                                Some(m)
                            },
                            None => Some(t),
                        };
                    },
                    None => {},
                }
                i = i + 1;
            }
            assert(events@.take(events.len() as int) == events@);
            match max_ts {
                None => events,
                Some(m) => {
                    let cutoff: i128 = m as i128 - (w as i64) as i128 * 1000;
                    let mut events = events;
                    let mut kept: Vec<JsonValue> = Vec::new();
                    let n = events.len();
                    let mut k: usize = 0;
                    while k < n
                        invariant
                            k <= n == orig.len(),
                            events@ == orig.skip(k as int),
                            kept@ == spec_events_since(orig.take(k as int), cutoff as int),
                        decreases n - k,
                    {
                        let e = events.remove(0);
                        proof {
                            assert(e == orig[k as int]);
                            assert(events@ == orig.skip(k + 1));
                            let t = orig.take(k + 1);
                            assert(t.drop_last() == orig.take(k as int));
                            assert(t.last() == e);
                        }
                        let keep = match e.get_i64("ts") {
                            Some(t) => t as i128 >= cutoff,
                            None => false,
                        };
                        if keep {
                            kept.push(e);
                        }
                        k = k + 1;
                    }
                    assert(orig.take(n as int) == orig);
                    kept
                },
            }
        },
    };
    let frames = TimelineAnalyzer::compute_frame_timings(&windowed, DEFAULT_FRAME_BUDGET_US);
    TimelineAnalyzer::summarize(&frames)
}

/// The integer `ts` of an event.
pub open spec fn event_ts(e: JsonValue) -> Option<i64> {
    spec_get_i64(e, "ts"@)
}

/// Holds of an event whose integer `ts` is at least `cutoff`.
pub open spec fn ts_at_least(cutoff: int) -> spec_fn(JsonValue) -> bool {
    |e: JsonValue|
        match event_ts(e) {
            Some(t) => t >= cutoff,
            None => false,
        }
}

/// `spec_max_ts` is the largest integer `ts` of the events, and exists exactly when
/// some event has one.
pub proof fn lemma_max_ts(events: Seq<JsonValue>)
    ensures
        spec_max_ts(events) is None <==> (forall|i: int| 0 <= i < events.len() ==> (#[trigger] event_ts(events[i])) is None),
        spec_max_ts(events) matches Some(m) ==> exists|i: int| 0 <= i < events.len() && #[trigger] event_ts(events[i]) == Some(m),
        spec_max_ts(events) matches Some(m) ==> forall|i: int| 0 <= i < events.len() ==> (#[trigger] event_ts(events[i]) matches Some(t) ==> t <= m),
    decreases events.len(),
{
    if events.len() > 0 {
        let d = events.drop_last();
        let l = events.len() - 1;
        lemma_max_ts(d);
        assert forall|i: int| 0 <= i < d.len() implies #[trigger] event_ts(events[i]) == event_ts(d[i]) by {
            assert(events[i] == d[i]);
        }
        assert(events[l] == events.last());
        if forall|i: int| 0 <= i < events.len() ==> (#[trigger] event_ts(events[i])) is None {
            assert forall|i: int| 0 <= i < d.len() implies (#[trigger] event_ts(d[i])) is None by {
                assert(event_ts(events[i]) is None);
            }
            assert(event_ts(events[l]) is None);
        }
        match spec_max_ts(events) {
            Some(m) => {
                if event_ts(events.last()) == Some(m) {
                    assert(event_ts(events[l]) == Some(m));
                } else {
                    let j = choose|j: int| 0 <= j < d.len() && #[trigger] event_ts(d[j]) == Some(m);
                    assert(event_ts(events[j]) == Some(m));
                }
            },
            None => {},
        }
    }
}

/// `spec_events_since` keeps, in order, the events whose integer `ts` is at least the cutoff.
pub proof fn lemma_events_since_filter(events: Seq<JsonValue>, cutoff: int)
    ensures
        spec_events_since(events, cutoff) == events.filter(ts_at_least(cutoff)),
    decreases events.len(),
{
    reveal(Seq::filter);
    if events.len() > 0 {
        lemma_events_since_filter(events.drop_last(), cutoff);
    }
}

/// Law of the performance window: without a window every event counts; with a window of
/// `w` milliseconds, when `m` is the largest integer `ts` among the events, the events kept
/// are, in their order, exactly those whose integer `ts` is at least `m - w * 1000` (the
/// timeline counts microseconds); when no event has an integer `ts`, every event counts.
pub proof fn law_performance_window(events: Seq<JsonValue>, w: u64, m: i64)
    requires
        w * 1000 <= i64::MAX,
    ensures
        spec_window(events, None) == events,
        (forall|i: int| 0 <= i < events.len() ==> (#[trigger] event_ts(events[i])) is None) ==> spec_window(events, Some(w)) == events,
        (exists|i: int| 0 <= i < events.len() && #[trigger] event_ts(events[i]) == Some(m))
            && (forall|j: int| 0 <= j < events.len() ==> (#[trigger] event_ts(events[j]) matches Some(t) ==> t <= m))
            ==> spec_window(events, Some(w)) == events.filter(ts_at_least(m - w * 1000)),
{
    lemma_max_ts(events);
    match spec_max_ts(events) {
        Some(mx) => {
            lemma_events_since_filter(events, mx - (w as i64) * 1000);
            if (exists|i: int| 0 <= i < events.len() && #[trigger] event_ts(events[i]) == Some(m))
                && (forall|j: int| 0 <= j < events.len() ==> (#[trigger] event_ts(events[j]) matches Some(t) ==> t <= m)) {
                let i = choose|i: int| 0 <= i < events.len() && #[trigger] event_ts(events[i]) == Some(m);
                let k = choose|k: int| 0 <= k < events.len() && #[trigger] event_ts(events[k]) == Some(mx);
                assert(event_ts(events[i]) == Some(m));
                assert(event_ts(events[k]) == Some(mx));
                assert(m == mx);
            }
        },
        None => {},
    }
}

// ---------------------------------------------------------------------------
// start_control
// ---------------------------------------------------------------------------

/// `root` and `relative` joined by exactly one `/`.
pub open spec fn spec_join_path(root: Seq<char>, relative: Seq<char>) -> Seq<char> {
    trim_end_char(root, '/') + seq!['/'] + trim_start_char(relative, '/')
}

/// Joins a project root and a path relative to it.
pub fn join_path(root: &str, relative: &str) -> (r: String)
    ensures
        r@ == spec_join_path(root@, relative@),
{
    let rv = to_chars(root);
    let mut out = trim_end_char_chars(&rv, '/');
    out.push('/');
    let relv = to_chars(relative);
    let rel = trim_start_char_chars(&relv, '/');
    extend_chars(&mut out, &rel);
    from_chars(&out)
}

/// Where the `start_control` flow stands.
#[derive(Debug, Clone, Copy, PartialEq, Eq, Structural)]
pub enum StartControlPhase {
    /// Waiting to learn whether an app is connected.
    AwaitConnection,
    /// Waiting for the content of `pubspec.yaml`.
    AwaitPubspec,
    /// Waiting for `pubspec.yaml` to be written with the new dependency.
    AwaitPubspecWrite,
    /// Waiting for the content of the entrypoint.
    AwaitEntrypoint,
    /// Waiting for the patched entrypoint to be written.
    AwaitEntrypointWrite,
    /// Waiting for the Hot Restart.
    AwaitHotRestart,
    /// Waiting for the original entrypoint to be written back.
    AwaitRevertWrite,
    /// The flow has ended.
    Finished,
}

/// State of a `start_control` run: enable Flutter Driver in an app launched with its
/// normal entrypoint, then Hot Restart it.
pub struct StartControl {
    pub phase: StartControlPhase,
    pub project_root: String,
    pub pubspec_path: String,
    pub entrypoint_path: String,
    pub revert_after_restart: bool,
    /// The entrypoint content as read from disk.
    pub original_source: Option<String>,
    /// The entrypoint already had Flutter Driver enabled.
    pub already_enabled: bool,
}

/// What the caller observed after performing the last action.
pub enum StartControlEvent {
    Connected(bool),
    FileRead(Result<String, ApplicationError>),
    FileWritten(Result<(), ApplicationError>),
    HotRestarted(Result<(), ApplicationError>),
}

/// What the caller must do next.
pub enum StartControlAction {
    CheckConnection,
    ReadFile(String),
    WriteFile { path: String, content: String },
    HotRestart,
    Finish(Result<StartControlOutcome, ApplicationError>),
}

/// The event answers the action the phase waits for.
pub open spec fn is_expected_event(phase: StartControlPhase, ev: StartControlEvent) -> bool {
    match phase {
        StartControlPhase::AwaitConnection => ev is Connected,
        StartControlPhase::AwaitPubspec | StartControlPhase::AwaitEntrypoint => ev is FileRead,
        StartControlPhase::AwaitPubspecWrite | StartControlPhase::AwaitEntrypointWrite
        | StartControlPhase::AwaitRevertWrite => ev is FileWritten,
        StartControlPhase::AwaitHotRestart => ev is HotRestarted,
        StartControlPhase::Finished => false,
    }
}

/// What the state holds in each phase.
pub open spec fn start_control_wf(st: StartControl) -> bool {
    &&& (st.phase == StartControlPhase::AwaitEntrypointWrite || st.phase == StartControlPhase::AwaitHotRestart
        || st.phase == StartControlPhase::AwaitRevertWrite) ==> st.original_source is Some
    &&& st.phase == StartControlPhase::AwaitEntrypointWrite ==> !st.already_enabled
    &&& st.phase == StartControlPhase::AwaitRevertWrite ==> st.revert_after_restart && !st.already_enabled
}

/// The outcome with the given flags for the state's entrypoint.
pub open spec fn is_outcome(o: StartControlOutcome, st: StartControl, already: bool, pubspec: bool, restarted: bool, reverted: bool) -> bool {
    &&& o.entrypoint_path@ == st.entrypoint_path@
    &&& o.already_enabled == already
    &&& o.pubspec_updated == pubspec
    &&& o.hot_restart_triggered == restarted
    &&& o.reverted == reverted
}

/// The message when `pubspec.yaml` cannot be read.
pub open spec fn pubspec_missing_message(pubspec_path: Seq<char>, project_root: Seq<char>) -> Seq<char> {
    "No se encontró pubspec.yaml en '"@ + pubspec_path + "' (project_root='"@ + project_root
        + "'). El servidor MCP no corre necesariamente en el directorio de la app Flutter conectada -- pasá 'project_root' con la ruta absoluta de esa app (la que contiene pubspec.yaml), no el default."@
}

/// One transition of the flow: the next state and action for the observed event.
pub open spec fn is_step(st: StartControl, ev: StartControlEvent, next: StartControl, act: StartControlAction) -> bool {
    &&& next.project_root == st.project_root
    &&& next.pubspec_path == st.pubspec_path
    &&& next.entrypoint_path == st.entrypoint_path
    &&& next.revert_after_restart == st.revert_after_restart
    &&& match (st.phase, ev) {
        (StartControlPhase::AwaitConnection, StartControlEvent::Connected(c)) => if c {
            next.phase == StartControlPhase::AwaitPubspec && (act matches StartControlAction::ReadFile(p) && p@ == st.pubspec_path@)
        } else {
            next.phase == StartControlPhase::Finished && (act matches StartControlAction::Finish(Err(e)) && e == ApplicationError::NotConnected)
        },
        (StartControlPhase::AwaitPubspec, StartControlEvent::FileRead(res)) => match res {
            Err(_) => next.phase == StartControlPhase::Finished && (act matches StartControlAction::Finish(Err(e))
                && e matches ApplicationError::FileSystemError(m) && m@ == pubspec_missing_message(st.pubspec_path@, st.project_root@)),
            Ok(src) => if spec_declares_flutter_driver(src@) {
                next.phase == StartControlPhase::AwaitEntrypoint && (act matches StartControlAction::ReadFile(p) && p@ == st.entrypoint_path@)
            } else {
                next.phase == StartControlPhase::AwaitPubspecWrite && (act matches StartControlAction::WriteFile { path, content }
                    && path@ == st.pubspec_path@ && content@ == spec_add_flutter_driver_dev_dependency(src@))
            },
        },
        (StartControlPhase::AwaitPubspecWrite, StartControlEvent::FileWritten(res)) => next.phase == StartControlPhase::Finished && match res {
            Ok(_) => act matches StartControlAction::Finish(Ok(o)) && is_outcome(o, st, false, true, false, false),
            Err(e) => act == StartControlAction::Finish(Err(e)),
        },
        (StartControlPhase::AwaitEntrypoint, StartControlEvent::FileRead(res)) => match res {
            Err(e) => next.phase == StartControlPhase::Finished && act == StartControlAction::Finish(Err(e)),
            Ok(src) => if spec_already_enabled(src@) {
                next.phase == StartControlPhase::AwaitHotRestart && next.already_enabled && next.original_source == Some(src)
                    && act == StartControlAction::HotRestart
            } else {
                match spec_inject(src@) {
                    None => next.phase == StartControlPhase::Finished && (act matches StartControlAction::Finish(Err(e))
                        && e matches ApplicationError::MainNotFound(p) && p@ == st.entrypoint_path@),
                    Some(patched) => next.phase == StartControlPhase::AwaitEntrypointWrite && !next.already_enabled
                        && next.original_source == Some(src) && (act matches StartControlAction::WriteFile { path, content }
                        && path@ == st.entrypoint_path@ && content@ == patched),
                }
            },
        },
        (StartControlPhase::AwaitEntrypointWrite, StartControlEvent::FileWritten(res)) => match res {
            Ok(_) => next.phase == StartControlPhase::AwaitHotRestart && next.already_enabled == st.already_enabled
                && next.original_source == st.original_source && act == StartControlAction::HotRestart,
            Err(e) => next.phase == StartControlPhase::Finished && act == StartControlAction::Finish(Err(e)),
        },
        (StartControlPhase::AwaitHotRestart, StartControlEvent::HotRestarted(res)) => match res {
            Ok(_) => if st.revert_after_restart && !st.already_enabled {
                next.phase == StartControlPhase::AwaitRevertWrite && next.already_enabled == st.already_enabled
                    && next.original_source == st.original_source && (act matches StartControlAction::WriteFile { path, content }
                    && path@ == st.entrypoint_path@ && Some(content) == st.original_source)
            } else {
                next.phase == StartControlPhase::Finished && (act matches StartControlAction::Finish(Ok(o))
                    && is_outcome(o, st, st.already_enabled, false, true, false))
            },
            Err(e) => next.phase == StartControlPhase::Finished && act == StartControlAction::Finish(Err(e)),
        },
        (StartControlPhase::AwaitRevertWrite, StartControlEvent::FileWritten(res)) => next.phase == StartControlPhase::Finished && match res {
            Ok(_) => act matches StartControlAction::Finish(Ok(o)) && is_outcome(o, st, st.already_enabled, false, true, true),
            Err(e) => act == StartControlAction::Finish(Err(e)),
        },
        _ => false,
    }
}

impl StartControl {
    /// Starts a run for the entrypoint `entrypoint` of the project at `project_root`:
    /// the first action asks whether an app is connected.
    pub fn begin(project_root: &str, entrypoint: &str, revert_after_restart: bool) -> (r: (StartControl, StartControlAction))
        ensures
            r.0.phase == StartControlPhase::AwaitConnection,
            r.0.project_root@ == project_root@,
            r.0.pubspec_path@ == crate::application::use_cases::spec_join_path(project_root@, "pubspec.yaml"@),
            r.0.entrypoint_path@ == crate::application::use_cases::spec_join_path(project_root@, entrypoint@),
            r.0.revert_after_restart == revert_after_restart,
            r.0.original_source is None,
            !r.0.already_enabled,
            r.1 == StartControlAction::CheckConnection,
            start_control_wf(r.0),
            is_run_of(r.0, project_root@, entrypoint@, revert_after_restart),
            is_begin_state(r.0, project_root@, entrypoint@, revert_after_restart),
    {
        let st = StartControl {
            phase: StartControlPhase::AwaitConnection,
            project_root: String::from_str(project_root),
            pubspec_path: join_path(project_root, "pubspec.yaml"),
            entrypoint_path: join_path(project_root, entrypoint),
            revert_after_restart,
            original_source: None,
            already_enabled: false,
        };
        (st, StartControlAction::CheckConnection)
    }

    /// Advances the run with the event observed after the last action.
    pub fn step(self, ev: StartControlEvent) -> (r: (StartControl, StartControlAction))
        requires
            start_control_wf(self),
            is_expected_event(self.phase, ev),
        ensures
            is_step(self, ev, r.0, r.1),
            start_control_wf(r.0),
    {
        let st = self;
        match (st.phase, ev) {
            (StartControlPhase::AwaitConnection, StartControlEvent::Connected(c)) => {
                if c {
                    let act = StartControlAction::ReadFile(st.pubspec_path.clone());
                    (StartControl { phase: StartControlPhase::AwaitPubspec, ..st }, act)
                } else {
                    (StartControl { phase: StartControlPhase::Finished, ..st }, StartControlAction::Finish(Err(ApplicationError::NotConnected)))
                }
            },
            (StartControlPhase::AwaitPubspec, StartControlEvent::FileRead(res)) => match res {
                Err(_) => {
                    let mut m: Vec<char> = Vec::new();
                    extend_str(&mut m, "No se encontró pubspec.yaml en '");
                    extend_str(&mut m, st.pubspec_path.as_str());
                    extend_str(&mut m, "' (project_root='");
                    extend_str(&mut m, st.project_root.as_str());
                    extend_str(&mut m, "'). El servidor MCP no corre necesariamente en el directorio de la app Flutter conectada -- pasá 'project_root' con la ruta absoluta de esa app (la que contiene pubspec.yaml), no el default.");
                    let e = ApplicationError::FileSystemError(from_chars(&m));
                    (StartControl { phase: StartControlPhase::Finished, ..st }, StartControlAction::Finish(Err(e)))
                },
                Ok(src) => {
                    if PubspecEditor::declares_flutter_driver(src.as_str()) {
                        let act = StartControlAction::ReadFile(st.entrypoint_path.clone());
                        (StartControl { phase: StartControlPhase::AwaitEntrypoint, ..st }, act)
                    } else {
                        let patched = PubspecEditor::add_flutter_driver_dev_dependency(src.as_str());
                        let act = StartControlAction::WriteFile { path: st.pubspec_path.clone(), content: patched };
                        (StartControl { phase: StartControlPhase::AwaitPubspecWrite, ..st }, act)
                    }
                },
            },
            (StartControlPhase::AwaitPubspecWrite, StartControlEvent::FileWritten(res)) => match res {
                Ok(_) => {
                    let o = StartControlOutcome {
                        entrypoint_path: st.entrypoint_path.clone(),
                        already_enabled: false,
                        pubspec_updated: true,
                        hot_restart_triggered: false,
                        reverted: false,
                    };
                    (StartControl { phase: StartControlPhase::Finished, ..st }, StartControlAction::Finish(Ok(o)))
                },
                Err(e) => (StartControl { phase: StartControlPhase::Finished, ..st }, StartControlAction::Finish(Err(e))),
            },
            (StartControlPhase::AwaitEntrypoint, StartControlEvent::FileRead(res)) => match res {
                Err(e) => (StartControl { phase: StartControlPhase::Finished, ..st }, StartControlAction::Finish(Err(e))),
                Ok(src) => {
                    if DriverInjector::already_enabled(src.as_str()) {
                        (
                            StartControl { phase: StartControlPhase::AwaitHotRestart, already_enabled: true, original_source: Some(src), ..st },
                            StartControlAction::HotRestart,
                        )
                    } else {
                        match DriverInjector::inject(src.as_str()) {
                            None => {
                                let e = ApplicationError::MainNotFound(st.entrypoint_path.clone());
                                (StartControl { phase: StartControlPhase::Finished, ..st }, StartControlAction::Finish(Err(e)))
                            },
                            Some(patched) => {
                                let act = StartControlAction::WriteFile { path: st.entrypoint_path.clone(), content: patched };
                                (
                                    StartControl {
                                        phase: StartControlPhase::AwaitEntrypointWrite,
                                        already_enabled: false,
                                        original_source: Some(src),
                                        ..st
                                    },
                                    act,
                                )
                            },
                        }
                    }
                },
            },
            (StartControlPhase::AwaitEntrypointWrite, StartControlEvent::FileWritten(res)) => match res {
                Ok(_) => (StartControl { phase: StartControlPhase::AwaitHotRestart, ..st }, StartControlAction::HotRestart),
                Err(e) => (StartControl { phase: StartControlPhase::Finished, ..st }, StartControlAction::Finish(Err(e))),
            },
            (StartControlPhase::AwaitHotRestart, StartControlEvent::HotRestarted(res)) => match res {
                Ok(_) => {
                    if st.revert_after_restart && !st.already_enabled {
                        let content = match &st.original_source {
                            Some(s) => s.clone(),
                            None => String::new(),
                        };
                        let act = StartControlAction::WriteFile { path: st.entrypoint_path.clone(), content };
                        (StartControl { phase: StartControlPhase::AwaitRevertWrite, ..st }, act)
                    } else {
                        let o = StartControlOutcome {
                            entrypoint_path: st.entrypoint_path.clone(),
                            already_enabled: st.already_enabled,
                            pubspec_updated: false,
                            hot_restart_triggered: true,
                            reverted: false,
                        };
                        (StartControl { phase: StartControlPhase::Finished, ..st }, StartControlAction::Finish(Ok(o)))
                    }
                },
                Err(e) => (StartControl { phase: StartControlPhase::Finished, ..st }, StartControlAction::Finish(Err(e))),
            },
            (StartControlPhase::AwaitRevertWrite, StartControlEvent::FileWritten(res)) => match res {
                Ok(_) => {
                    let o = StartControlOutcome {
                        entrypoint_path: st.entrypoint_path.clone(),
                        already_enabled: st.already_enabled,
                        pubspec_updated: false,
                        hot_restart_triggered: true,
                        reverted: true,
                    };
                    (StartControl { phase: StartControlPhase::Finished, ..st }, StartControlAction::Finish(Ok(o)))
                },
                Err(e) => (StartControl { phase: StartControlPhase::Finished, ..st }, StartControlAction::Finish(Err(e))),
            },
            _ => {
                proof {
                    assert(false);
                }
                (st, StartControlAction::HotRestart)
            },
        }
    }
}

/// Every successful outcome is consistent: a pubspec update stops before any restart,
/// otherwise the app was restarted, and a revert only follows a fresh injection.
pub open spec fn outcome_consistent(o: StartControlOutcome) -> bool {
    &&& o.pubspec_updated ==> !o.hot_restart_triggered && !o.already_enabled && !o.reverted
    &&& !o.pubspec_updated ==> o.hot_restart_triggered
    &&& o.reverted ==> !o.already_enabled && o.hot_restart_triggered
}

/// Whatever run the caller drives, a successful finish reports a consistent outcome.
pub proof fn law_start_control_outcome_consistent(st: StartControl, ev: StartControlEvent, next: StartControl, act: StartControlAction)
    requires
        start_control_wf(st),
        is_step(st, ev, next, act),
    ensures
        act matches StartControlAction::Finish(Ok(o)) ==> outcome_consistent(o),
{
}

/// When the run restores the entrypoint, it writes back exactly the content it read.
pub proof fn law_start_control_revert_restores_original(st: StartControl, ev: StartControlEvent, next: StartControl, act: StartControlAction)
    requires
        start_control_wf(st),
        is_step(st, ev, next, act),
        next.phase == StartControlPhase::AwaitRevertWrite,
    ensures
        act matches StartControlAction::WriteFile { path, content } && path@ == st.entrypoint_path@
            && Some(content) == st.original_source,
{
}

/// The state belongs to the run started for `project_root`, `entrypoint` and the revert
/// flag: its paths and flag are the ones that run was started with.
pub open spec fn is_run_of(st: StartControl, project_root: Seq<char>, entrypoint: Seq<char>, revert: bool) -> bool {
    &&& st.project_root@ == project_root
    &&& st.pubspec_path@ == spec_join_path(project_root, "pubspec.yaml"@)
    &&& st.entrypoint_path@ == spec_join_path(project_root, entrypoint)
    &&& st.revert_after_restart == revert
}

/// Over a whole run: every step keeps the paths and flag the run started with (`begin`
/// establishes them), and a successful finish reports the joined entrypoint path, a
/// consistent outcome, and a revert exactly when one was asked for, the entrypoint was
/// not already enabled and the pubspec was not changed.
pub proof fn law_start_control_run(
    st: StartControl,
    ev: StartControlEvent,
    next: StartControl,
    act: StartControlAction,
    project_root: Seq<char>,
    entrypoint: Seq<char>,
    revert: bool,
)
    requires
        start_control_wf(st),
        is_run_of(st, project_root, entrypoint, revert),
        is_step(st, ev, next, act),
    ensures
        is_run_of(next, project_root, entrypoint, revert),
        act matches StartControlAction::Finish(Ok(o)) ==> {
            &&& o.entrypoint_path@ == spec_join_path(project_root, entrypoint)
            &&& outcome_consistent(o)
            &&& o.reverted <==> (revert && !o.already_enabled && !o.pubspec_updated)
        },
{
}

/// A recorded run: the states it went through, the events observed and the actions
/// taken, each state following from the one before by one step.
pub open spec fn is_run(sts: Seq<StartControl>, evs: Seq<StartControlEvent>, acts: Seq<StartControlAction>) -> bool {
    &&& sts.len() == evs.len() + 1
    &&& acts.len() == evs.len()
    &&& forall|i: int| 0 <= i < evs.len() ==> is_step(#[trigger] sts[i], evs[i], sts[i + 1], acts[i])
}

/// The state `begin` starts a run with.
pub open spec fn is_begin_state(st: StartControl, project_root: Seq<char>, entrypoint: Seq<char>, revert: bool) -> bool {
    &&& st.phase == StartControlPhase::AwaitConnection
    &&& st.original_source is None
    &&& !st.already_enabled
    &&& is_run_of(st, project_root, entrypoint, revert)
}

proof fn lemma_run_states(
    sts: Seq<StartControl>,
    evs: Seq<StartControlEvent>,
    acts: Seq<StartControlAction>,
    project_root: Seq<char>,
    entrypoint: Seq<char>,
    revert: bool,
    k: int,
)
    requires
        is_run(sts, evs, acts),
        is_begin_state(sts[0], project_root, entrypoint, revert),
        0 <= k < sts.len(),
    ensures
        start_control_wf(sts[k]),
        is_run_of(sts[k], project_root, entrypoint, revert),
    decreases k,
{
    if k > 0 {
        lemma_run_states(sts, evs, acts, project_root, entrypoint, revert, k - 1);
        assert(is_step(sts[k - 1], evs[k - 1], sts[k], acts[k - 1]));
        law_start_control_run(sts[k - 1], evs[k - 1], sts[k], acts[k - 1], project_root, entrypoint, revert);
    }
}

/// Over a whole run started by `begin`, whatever the ports answered: every successful
/// finish reports the entrypoint at `project_root` joined with `entrypoint`, a consistent
/// outcome, and a revert exactly when one was asked for, the entrypoint was not already
/// enabled and the pubspec was not changed.
pub proof fn law_start_control_whole_run(
    sts: Seq<StartControl>,
    evs: Seq<StartControlEvent>,
    acts: Seq<StartControlAction>,
    project_root: Seq<char>,
    entrypoint: Seq<char>,
    revert: bool,
)
    requires
        is_run(sts, evs, acts),
        is_begin_state(sts[0], project_root, entrypoint, revert),
    ensures
        forall|i: int| 0 <= i < acts.len() ==> (#[trigger] acts[i] matches StartControlAction::Finish(Ok(o)) ==> {
            &&& o.entrypoint_path@ == spec_join_path(project_root, entrypoint)
            &&& outcome_consistent(o)
            &&& o.reverted <==> (revert && !o.already_enabled && !o.pubspec_updated)
        }),
{
    assert forall|i: int| 0 <= i < acts.len() implies (#[trigger] acts[i] matches StartControlAction::Finish(Ok(o)) ==> {
        &&& o.entrypoint_path@ == spec_join_path(project_root, entrypoint)
        &&& outcome_consistent(o)
        &&& o.reverted <==> (revert && !o.already_enabled && !o.pubspec_updated)
    }) by {
        lemma_run_states(sts, evs, acts, project_root, entrypoint, revert, i);
        assert(is_step(sts[i], evs[i], sts[i + 1], acts[i]));
        law_start_control_run(sts[i], evs[i], sts[i + 1], acts[i], project_root, entrypoint, revert);
    }
}

} // verus!
