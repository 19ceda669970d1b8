//! What a connection accumulates from the VM Service streams: a bounded log of the app's
//! output and a bounded list of the errors detected in it, repeats collapsed.

use vstd::prelude::*;
use std::collections::VecDeque;
use crate::entities::{FlutterError, FlutterErrorView, LogEntry, LogSource, opt_view};
use crate::vm::driver::{pause_exception_id, spec_pause_exception_id};
use crate::application::use_cases::spec_most_recent;
use crate::json::{JsonValue, spec_get, spec_get_str};
use crate::services::error_detector::{
    DetectorState, ErrorDetector, detector_wf, spec_flush, spec_process_line,
};
use crate::services::log_parser::{
    LogParser, is_logging_entry, spec_record_string, spec_write_event_message, timestamp_or_zero,
};
use crate::json::spec_get_i64;
use crate::text::{from_chars, lines, split_lines, str_eq, to_chars, views};

verus! {

broadcast use vstd::string::group_string_axioms;

/// At most this many log lines are kept; the oldest go first.
pub const LOG_BUFFER_CAPACITY: usize = 2000;

/// At most this many distinct errors are kept; the oldest go first.
pub const ERROR_BUFFER_CAPACITY: usize = 200;

// ---------------------------------------------------------------------------
// Bounded buffers
// ---------------------------------------------------------------------------

/// `s` with `item` appended, its oldest element dropped first when it already holds
/// `capacity` elements.
pub open spec fn spec_push_bounded<T>(s: Seq<T>, item: T, capacity: nat) -> Seq<T> {
    (if s.len() >= capacity && s.len() > 0 {
        s.drop_first()
    } else {
        s
    }).push(item)
}

/// Appends `item`, dropping the oldest element when the buffer is full.
pub fn push_bounded<T>(buffer: &mut VecDeque<T>, item: T, capacity: usize)
    ensures
        final(buffer)@ == spec_push_bounded(old(buffer)@, item, capacity as nat),
{
    if buffer.len() >= capacity {
        let _ = buffer.pop_front();
    }
    buffer.push_back(item);
    proof {
        if old(buffer)@.len() >= capacity && old(buffer)@.len() > 0 {
            assert(old(buffer)@.subrange(1, old(buffer)@.len() as int) == old(buffer)@.drop_first());
        }
    }
}

/// A bounded buffer keeps the most recent items: pushing onto a buffer within its capacity
/// gives the last `capacity` items of the buffer followed by the new one.
pub proof fn law_push_bounded_keeps_most_recent<T>(s: Seq<T>, item: T, capacity: usize)
    requires
        0 < capacity,
        s.len() <= capacity,
    ensures
        spec_push_bounded(s, item, capacity as nat) == spec_most_recent(s.push(item), capacity),
        spec_push_bounded(s, item, capacity as nat).len() <= capacity,
{
    if s.len() == capacity {
        assert(s.drop_first().push(item) == s.push(item).skip(1));
    }
}

// ---------------------------------------------------------------------------
// Detected errors
// ---------------------------------------------------------------------------

/// The abstract values of a sequence of errors.
pub open spec fn errors_view(s: Seq<FlutterError>) -> Seq<FlutterErrorView> {
    s.map_values(|e: FlutterError| e@)
}

/// Two errors are repeats of each other: same message, same source.
pub open spec fn same_error(a: FlutterErrorView, b: FlutterErrorView) -> bool {
    a.message == b.message && a.source == b.source
}

/// The errors after recording `e`: a repeat of the last one increments its count and takes
/// the new timestamp; another error is appended, the oldest dropped when full.
pub open spec fn spec_push_error(s: Seq<FlutterErrorView>, e: FlutterErrorView) -> Seq<FlutterErrorView> {
    if s.len() > 0 && same_error(s.last(), e) {
        s.update(
            s.len() - 1,
            FlutterErrorView {
                occurrences: (s.last().occurrences + 1) as u32,
                timestamp_ms: e.timestamp_ms,
                ..s.last()
            },
        )
    } else {
        spec_push_bounded(s, e, ERROR_BUFFER_CAPACITY as nat)
    }
}

/// Recording `e` does not overflow the count of the last error.
pub open spec fn can_record(s: Seq<FlutterErrorView>, e: FlutterErrorView) -> bool {
    s.len() > 0 && same_error(s.last(), e) ==> s.last().occurrences < u32::MAX
}

/// The invariant of the error list: within capacity, every count at least one, and no
/// error followed by a repeat of itself.
pub open spec fn errors_wf(s: Seq<FlutterErrorView>) -> bool {
    &&& s.len() <= ERROR_BUFFER_CAPACITY
    &&& forall|i: int| 0 <= i < s.len() ==> #[trigger] s[i].occurrences >= 1
    &&& forall|i: int| 0 <= i < s.len() - 1 ==> !same_error(#[trigger] s[i], s[i + 1])
}

/// Records a detected error, collapsing a repeat of the last one.
pub fn push_error(errors: &mut VecDeque<FlutterError>, new_error: FlutterError)
    requires
        can_record(errors_view(old(errors)@), new_error@),
    ensures
        errors_view(final(errors)@) == spec_push_error(errors_view(old(errors)@), new_error@),
{
    let n = errors.len();
    if n > 0 {
        let same = {
            let last = &errors[n - 1];
            str_eq(last.message.as_str(), new_error.message.as_str()) && last.source == new_error.source
        };
        if same {
            let popped = errors.pop_back();
            match popped {
                Some(mut last) => {
                    last.occurrences = last.occurrences + 1;
                    last.timestamp_ms = new_error.timestamp_ms;
                    errors.push_back(last);
                    proof {
                        let s = errors_view(old(errors)@);
                        assert(errors_view(errors@) =~= spec_push_error(s, new_error@));
                    }
                },
                None => {},
            }
            return;
        }
    }
    let ghost before = errors@;
    push_bounded(errors, new_error, ERROR_BUFFER_CAPACITY);
    proof {
        let s = errors_view(before);
        if before.len() >= ERROR_BUFFER_CAPACITY && before.len() > 0 {
            assert(errors_view(before.drop_first()) =~= s.drop_first());
        }
        assert(errors_view(errors@) =~= spec_push_error(s, new_error@));
    }
}

/// Recording an error keeps the list within capacity, without repeats side by side and
/// with positive counts; the error recorded is the last one, with its timestamp.
pub proof fn law_push_error_keeps_wf(s: Seq<FlutterErrorView>, e: FlutterErrorView)
    requires
        errors_wf(s),
        can_record(s, e),
        e.occurrences >= 1,
    ensures
        errors_wf(spec_push_error(s, e)),
        same_error(spec_push_error(s, e).last(), e),
        spec_push_error(s, e).last().timestamp_ms == e.timestamp_ms,
{
    let r = spec_push_error(s, e);
    if s.len() > 0 && same_error(s.last(), e) {
        assert forall|i: int| 0 <= i < r.len() - 1 implies !same_error(#[trigger] r[i], r[i + 1]) by {
            assert(r[i] == s[i]);
        }
    } else {
        let b = if s.len() >= ERROR_BUFFER_CAPACITY && s.len() > 0 {
            s.drop_first()
        } else {
            s
        };
        assert(r == b.push(e));
        assert forall|i: int| 0 <= i < r.len() - 1 implies !same_error(#[trigger] r[i], r[i + 1]) by {
            if i + 1 < b.len() {
                if b.len() < s.len() {
                    assert(b[i] == s[i + 1]);
                    assert(b[i + 1] == s[i + 2]);
                }
            } else {
                assert(r[i + 1] == e);
                assert(r[i] == b.last());
                assert(b.last() == s.last());
            }
        }
        assert forall|i: int| 0 <= i < r.len() implies #[trigger] r[i].occurrences >= 1 by {
            if i < b.len() {
                if b.len() < s.len() {
                    assert(b[i] == s[i + 1]);
                }
            }
        }
    }
}

// ---------------------------------------------------------------------------
// A connection's buffers
// ---------------------------------------------------------------------------

/// The detector and the errors after feeding it `ls`, in order, recording each error it
/// reports, and whether every line was fed: feeding stops at the line whose error would
/// push the count of the last error past its maximum.
pub open spec fn spec_ingest_lines(
    det: DetectorState,
    errs: Seq<FlutterErrorView>,
    ls: Seq<Seq<char>>,
    timestamp_ms: i64,
) -> (DetectorState, Seq<FlutterErrorView>, bool)
    decreases ls.len(),
{
    if ls.len() == 0 {
        (det, errs, true)
    } else {
        let (d1, found) = spec_process_line(det, ls[0], timestamp_ms);
        match found {
            Some(e) => if can_record(errs, e) {
                spec_ingest_lines(d1, spec_push_error(errs, e), ls.drop_first(), timestamp_ms)
            } else {
                (d1, errs, false)
            },
            None => spec_ingest_lines(d1, errs, ls.drop_first(), timestamp_ms),
        }
    }
}

/// Abstract value of a connection's buffers.
pub struct BuffersView {
    pub logs: Seq<LogEntry>,
    pub errors: Seq<FlutterErrorView>,
    pub detector: DetectorState,
    pub precise_errors: bool,
}

/// The invariant of a connection's buffers.
pub open spec fn buffers_wf(v: BuffersView) -> bool {
    &&& v.logs.len() <= LOG_BUFFER_CAPACITY
    &&& errors_wf(v.errors)
    &&& detector_wf(v.detector)
}

/// What a connection accumulates from the `Stdout`, `Stderr`, `Logging` and `Debug`
/// streams.
#[derive(Debug)]
pub struct SessionBuffers {
    logs: VecDeque<LogEntry>,
    errors: VecDeque<FlutterError>,
    detector: ErrorDetector,
    precise_errors_enabled: bool,
}

impl View for SessionBuffers {
    type V = BuffersView;

    closed spec fn view(&self) -> BuffersView {
        BuffersView {
            logs: self.logs@,
            errors: errors_view(self.errors@),
            detector: self.detector@,
            precise_errors: self.precise_errors_enabled,
        }
    }
}

/// A detected error is reported once, from the stdout heuristic.
proof fn lemma_detected_once(st: DetectorState, line: Seq<char>, timestamp_ms: i64)
    ensures
        spec_process_line(st, line, timestamp_ms).1 matches Some(e) ==> e.occurrences == 1,
{
}

/// The effect of a `Stdout`/`Stderr` write event on the buffers: the decoded text is
/// logged and fed to the detector line by line, each reported error recorded; `recorded`
/// is false when a reported error repeats the last one whose count is at its maximum, and
/// the feeding stopped there.
pub open spec fn is_stdout_effect(old: BuffersView, new: BuffersView, is_stderr: bool, event: JsonValue, recorded: bool) -> bool {
    match spec_write_event_message(event) {
        None => new == old && recorded,
        Some(m) => {
            let ts = timestamp_or_zero(spec_get_i64(event, "timestamp"@));
            let fed = spec_ingest_lines(old.detector, old.errors, lines(m), ts);
            &&& recorded == fed.2
            &&& new.precise_errors == old.precise_errors
            &&& new.detector == fed.0
            &&& new.errors == fed.1
            &&& exists|e: LogEntry|
                #![trigger spec_push_bounded(old.logs, e, LOG_BUFFER_CAPACITY as nat)]
                e.message@ == m && e.timestamp_ms == ts
                    && e.source == (if is_stderr { LogSource::Stderr } else { LogSource::Stdout })
                    && new.logs == spec_push_bounded(old.logs, e, LOG_BUFFER_CAPACITY as nat)
        },
    }
}

/// The effect of a `Logging` event: its record, when it has an inline message, is logged.
pub open spec fn is_logging_effect(old: BuffersView, new: BuffersView, event: JsonValue) -> bool {
    match spec_get(event, "logRecord"@) {
        Some(record) => match spec_record_string(record, "message"@) {
            Some(m) => {
                &&& new.errors == old.errors
                &&& new.detector == old.detector
                &&& new.precise_errors == old.precise_errors
                &&& exists|e: LogEntry|
                    #![trigger spec_push_bounded(old.logs, e, LOG_BUFFER_CAPACITY as nat)]
                    is_logging_entry(e, record, m) && new.logs == spec_push_bounded(old.logs, e, LOG_BUFFER_CAPACITY as nat)
            },
            None => new == old,
        },
        None => new == old,
    }
}

impl SessionBuffers {
    /// Empty buffers, with precise error capture off.
    pub fn new() -> (r: Self)
        ensures
            r@.logs.len() == 0,
            r@.errors.len() == 0,
            r@.detector.capturing is None,
            !r@.precise_errors,
            buffers_wf(r@),
    {
        let r = SessionBuffers {
            logs: VecDeque::new(),
            errors: VecDeque::new(),
            detector: ErrorDetector::new(),
            precise_errors_enabled: false,
        };
        assert(errors_view(r.errors@) =~= Seq::<FlutterErrorView>::empty());
        r
    }

    /// The logged entries, oldest first.
    pub fn logs(&self) -> (r: &VecDeque<LogEntry>)
        ensures
            r@ == self@.logs,
    {
        &self.logs
    }

    /// The recorded errors, oldest first.
    pub fn errors(&self) -> (r: &VecDeque<FlutterError>)
        ensures
            errors_view(r@) == self@.errors,
    {
        &self.errors
    }

    /// Whether errors are also captured by pausing on exceptions.
    pub fn precise_errors_enabled(&self) -> (r: bool)
        ensures
            r == self@.precise_errors,
    {
        self.precise_errors_enabled
    }

    /// Turns capture by pausing on exceptions on or off.
    pub fn set_precise_errors(&mut self, enabled: bool)
        ensures
            final(self)@ == (BuffersView { precise_errors: enabled, ..old(self)@ }),
    {
        self.precise_errors_enabled = enabled;
    }

    /// Forgets everything, as when the connection ends.
    pub fn clear(&mut self)
        ensures
            final(self)@.logs.len() == 0,
            final(self)@.errors.len() == 0,
            final(self)@.detector.capturing is None,
            final(self)@.detector.buffer.len() == 0,
            !final(self)@.precise_errors,
            buffers_wf(final(self)@),
    {
        *self = SessionBuffers::new();
    }

    /// Whether recording `e` leaves the count of the last error within its maximum.
    fn can_record_exec(&self, e: &FlutterError) -> (r: bool)
        ensures
            r == can_record(self@.errors, e@),
    {
        let n = self.errors.len();
        if n > 0 && self.errors[n - 1].occurrences == u32::MAX {
            let last = &self.errors[n - 1];
            if str_eq(last.message.as_str(), e.message.as_str()) && last.source == e.source {
                return false;
            }
        }
        true
    }

    /// Logs a `Stdout`/`Stderr` write event and feeds its lines to the error detector,
    /// recording each error it reports; `false` when a reported error repeats the last
    /// one and its count is already at the maximum (feeding stops at that line).
    pub fn ingest_stdout(&mut self, is_stderr: bool, event: &JsonValue) -> (recorded: bool)
        requires
            buffers_wf(old(self)@),
        ensures
            is_stdout_effect(old(self)@, final(self)@, is_stderr, *event, recorded),
            buffers_wf(final(self)@),
    {
        let entry = match LogParser::parse_stdout_event(is_stderr, event) {
            Some(e) => e,
            None => return true,
        };
        let msg = to_chars(entry.message.as_str());
        let ls = split_lines(&msg);
        let ts = entry.timestamp_ms;
        let ghost e0 = entry;
        push_bounded(&mut self.logs, entry, LOG_BUFFER_CAPACITY);
        let ghost d0 = self.detector@;
        let ghost errs0 = errors_view(self.errors@);
        let ghost logs1 = self.logs@;
        let mut i: usize = 0;
        assert(views(ls@).skip(0) == views(ls@));
        while i < ls.len()
            invariant
                i <= ls.len(),
                views(ls@) == lines(msg@),
                spec_ingest_lines(self.detector@, errors_view(self.errors@), views(ls@).skip(i as int), ts)
                    == spec_ingest_lines(d0, errs0, views(ls@), ts),
                detector_wf(self.detector@),
                errors_wf(errors_view(self.errors@)),
                self.logs@ == logs1,
                self.logs@.len() <= LOG_BUFFER_CAPACITY,
                self.precise_errors_enabled == old(self).precise_errors_enabled,
                spec_write_event_message(*event) == Some(msg@),
                ts == timestamp_or_zero(spec_get_i64(*event, "timestamp"@)),
                e0.message@ == msg@,
                e0.timestamp_ms == ts,
                e0.source == (if is_stderr { LogSource::Stderr } else { LogSource::Stdout }),
                logs1 == spec_push_bounded(old(self)@.logs, e0, LOG_BUFFER_CAPACITY as nat),
                d0 == old(self)@.detector,
                errs0 == old(self)@.errors,
            decreases ls.len() - i,
        {
            let line = from_chars(&ls[i]);
            let ghost before_d = self.detector@;
            let ghost before_e = errors_view(self.errors@);
            proof {
                lemma_detected_once(before_d, line@, ts);
                assert(views(ls@).skip(i as int)[0] == line@);
                assert(views(ls@).skip(i as int).drop_first() == views(ls@).skip(i + 1));
            }
            let detected = self.detector.process_line(line.as_str(), ts);
            match detected {
                Some(d) => {
                    if !self.can_record_exec(&d) {
                        return false;
                    }
                    proof {
                        law_push_error_keeps_wf(before_e, d@);
                    }
                    push_error(&mut self.errors, d);
                },
                None => {},
            }
            i = i + 1;
        }
        assert(views(ls@).skip(ls.len() as int).len() == 0);
        true
    }

    /// Logs a `Logging` event (`dart:developer.log()`), when its record has an inline
    /// message.
    pub fn ingest_logging(&mut self, event: &JsonValue)
        requires
            buffers_wf(old(self)@),
        ensures
            is_logging_effect(old(self)@, final(self)@, *event),
            buffers_wf(final(self)@),
    {
        match LogParser::parse_logging_event(event) {
            Some(entry) => push_bounded(&mut self.logs, entry, LOG_BUFFER_CAPACITY),
            None => {},
        }
    }

    /// Records an error caught by pausing on an exception; `false`, with nothing changed,
    /// when it repeats the last error and its count is at the maximum.
    pub fn record_error(&mut self, e: FlutterError) -> (recorded: bool)
        requires
            buffers_wf(old(self)@),
            e@.occurrences >= 1,
        ensures
            recorded == can_record(old(self)@.errors, e@),
            recorded ==> final(self)@ == (BuffersView { errors: spec_push_error(old(self)@.errors, e@), ..old(self)@ }),
            !recorded ==> final(self)@ == old(self)@,
            buffers_wf(final(self)@),
    {
        if !self.can_record_exec(&e) {
            return false;
        }
        proof {
            law_push_error_keeps_wf(old(self)@.errors, e@);
        }
        push_error(&mut self.errors, e);
        true
    }

    /// Closes a pending error block and records it, before the errors are read;
    /// `now_ms` is its timestamp. `false` when the pending error repeats the last one
    /// and its count is at the maximum: the block is then closed and not recorded.
    pub fn flush_pending(&mut self, now_ms: i64) -> (recorded: bool)
        requires
            buffers_wf(old(self)@),
        ensures
            final(self)@.detector == spec_flush(old(self)@.detector, now_ms).0,
            final(self)@.logs == old(self)@.logs,
            final(self)@.precise_errors == old(self)@.precise_errors,
            match spec_flush(old(self)@.detector, now_ms).1 {
                Some(e) => if can_record(old(self)@.errors, e) {
                    recorded && final(self)@.errors == spec_push_error(old(self)@.errors, e)
                } else {
                    !recorded && final(self)@.errors == old(self)@.errors
                },
                None => recorded && final(self)@.errors == old(self)@.errors,
            },
            buffers_wf(final(self)@),
    {
        let pending = self.detector.flush(now_ms);
        match pending {
            Some(e) => {
                proof {
                    assert(e@.occurrences == 1);
                }
                self.record_error(e)
            },
            None => true,
        }
    }
}

/// What became of a stream notification.
#[derive(Debug, PartialEq)]
pub enum StreamOutcome {
    /// Handled (or not one the buffers keep anything of).
    Handled,
    /// A write event in which a reported error repeats the last one whose count is at its
    /// maximum: the event was logged and its lines fed up to that error, not recorded.
    Overflow,
    /// The isolate paused on an exception while precise capture is on: the transport
    /// resolves the exception (object `exception_id`) and its stack, resumes the isolate
    /// and records the error.
    Pause { exception_id: Option<String>, timestamp_ms: i64 },
}

/// The stream id and the event of a `streamNotify` message.
pub open spec fn spec_stream_parts(parsed: JsonValue) -> Option<(Seq<char>, JsonValue)> {
    match spec_get(parsed, "params"@) {
        Some(params) => match spec_get_str(params, "streamId"@) {
            Some(id) => match spec_get(params, "event"@) {
                Some(ev) => Some((id, ev)),
                None => None,
            },
            None => None,
        },
        None => None,
    }
}

/// The effect of a stream notification on the buffers, and its outcome.
pub open spec fn is_stream_effect(old: BuffersView, new: BuffersView, parsed: JsonValue, r: StreamOutcome) -> bool {
    match spec_stream_parts(parsed) {
        None => new == old && r == StreamOutcome::Handled,
        Some((id, ev)) => if id == "Stdout"@ || id == "Stderr"@ {
            let is_stderr = id == "Stderr"@;
            ||| is_stdout_effect(old, new, is_stderr, ev, true) && r == StreamOutcome::Handled
            ||| is_stdout_effect(old, new, is_stderr, ev, false) && r == StreamOutcome::Overflow
        } else if id == "Logging"@ {
            is_logging_effect(old, new, ev) && r == StreamOutcome::Handled
        } else if id == "Debug"@ && old.precise_errors && spec_get_str(ev, "kind"@) == Some(
            "PauseException"@,
        ) {
            &&& new == old
            &&& r matches StreamOutcome::Pause { exception_id, timestamp_ms }
            &&& opt_view(exception_id) == spec_pause_exception_id(ev)
            &&& timestamp_ms == timestamp_or_zero(spec_get_i64(ev, "timestamp"@))
        } else {
            new == old && r == StreamOutcome::Handled
        },
    }
}

impl SessionBuffers {
    /// Handles a `streamNotify` message of the `Stdout`, `Stderr`, `Logging` or `Debug`
    /// streams.
    pub fn handle_stream_event(&mut self, parsed: &JsonValue) -> (r: StreamOutcome)
        requires
            buffers_wf(old(self)@),
        ensures
            is_stream_effect(old(self)@, final(self)@, *parsed, r),
            buffers_wf(final(self)@),
    {
        let params = match parsed.get("params") {
            Some(p) => p,
            None => return StreamOutcome::Handled,
        };
        let stream_id = match params.get_str("streamId") {
            Some(id) => id,
            None => return StreamOutcome::Handled,
        };
        let event = match params.get("event") {
            Some(e) => e,
            None => return StreamOutcome::Handled,
        };
        let is_stdout = str_eq(stream_id, "Stdout");
        let is_stderr = str_eq(stream_id, "Stderr");
        if is_stdout || is_stderr {
            let recorded = self.ingest_stdout(is_stderr, event);
            return if recorded {
                StreamOutcome::Handled
            } else {
                StreamOutcome::Overflow
            };
        }
        if str_eq(stream_id, "Logging") {
            self.ingest_logging(event);
            return StreamOutcome::Handled;
        }
        if str_eq(stream_id, "Debug") && self.precise_errors_enabled {
            let is_pause = match event.get_str("kind") {
                Some(k) => str_eq(k, "PauseException"),
                None => false,
            };
            if is_pause {
                let timestamp_ms: i64 = match event.get_i64("timestamp") {
                    Some(t) => t,
                    None => 0,
                };
                return StreamOutcome::Pause { exception_id: pause_exception_id(event), timestamp_ms };
            }
        }
        StreamOutcome::Handled
    }
}

} // verus!
