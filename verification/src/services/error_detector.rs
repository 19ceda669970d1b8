//! Line-by-line detection of framework exceptions (red screens, unhandled exceptions)
//! in the text an app prints to stdout/stderr.

use vstd::prelude::*;
use crate::entities::{ErrorSource, FlutterError, FlutterErrorView, opt_view};
use crate::text::{
    contains, contains_str, find, lemma_trim_of_trim_end, from_chars, is_ws, join, join_chars, lemma_find_char,
    lemma_find_from_first, lemma_single_char_match, lines, lowercase, matches_at, split_lines,
    starts_with, strip_cr, to_chars, to_lowercase, trim, trim_chars, trim_end, trim_end_chars,
    trim_start, trim_start_chars, views,
};

verus! {

broadcast use vstd::string::group_string_axioms;

/// Marker of the banner that opens a Flutter red-screen block.
pub const EXCEPTION_BANNER_MARKER: &'static str = "EXCEPTION CAUGHT BY";

/// Box-drawing character of the banner separators.
pub const SEPARATOR_CHAR: char = '\u{2550}';

/// Case-insensitive marker of an uncaught exception, in either of its formats.
pub const UNHANDLED_MARKER: &'static str = "unhandled exception";

/// A block that never closes is cut once it holds more than this many lines.
pub const MAX_BUFFERED_LINES: usize = 200;

/// The kind of block being captured.
#[derive(Debug, Clone, Copy, PartialEq, Eq, Structural)]
pub enum CaptureKind {
    /// Block between the `EXCEPTION CAUGHT BY` banner and a separator line.
    FlutterBanner,
    /// Uncaught exception without a red screen, followed by a `#0 ...` stack.
    PlainUnhandled,
}

/// Abstract state of the detector.
pub struct DetectorState {
    pub capturing: Option<CaptureKind>,
    pub buffer: Seq<Seq<char>>,
    pub seen_stack_frame: bool,
}

/// A non-empty line made only of separator characters.
pub open spec fn is_separator_line(l: Seq<char>) -> bool {
    l.len() > 0 && forall|i: int| 0 <= i < l.len() ==> l[i] == SEPARATOR_CHAR
}

/// The lines that are not pure separators, in order.
pub open spec fn substantive(ls: Seq<Seq<char>>) -> Seq<Seq<char>>
    decreases ls.len(),
{
    if ls.len() == 0 {
        Seq::empty()
    } else if is_separator_line(ls.last()) {
        substantive(ls.drop_last())
    } else {
        substantive(ls.drop_last()).push(ls.last())
    }
}

/// The first substantive line (trimmed) is the message; the other substantive lines,
/// joined, are the stack trace.
pub open spec fn spec_split_message_and_stack(full: Seq<char>) -> (Seq<char>, Option<Seq<char>>) {
    let subs = substantive(lines(full));
    let message = trim(if subs.len() > 0 { subs[0] } else { full });
    let stack = if subs.len() <= 1 { None } else { Some(join(subs.drop_first(), seq!['\n'])) };
    (message, stack)
}

/// The error reported for a captured block.
pub open spec fn spec_report(buffer: Seq<Seq<char>>, timestamp_ms: i64) -> FlutterErrorView {
    let (message, stack_trace) = spec_split_message_and_stack(join(buffer, seq!['\n']));
    FlutterErrorView {
        timestamp_ms,
        message,
        stack_trace,
        source: ErrorSource::StdoutHeuristic,
        occurrences: 1,
    }
}

/// The state after a block closes.
pub open spec fn spec_closed(st: DetectorState) -> DetectorState {
    DetectorState { capturing: None, buffer: Seq::empty(), seen_stack_frame: st.seen_stack_frame }
}

/// The state after a block of `kind` opens with `line`.
pub open spec fn spec_opened(kind: CaptureKind, line: Seq<char>) -> DetectorState {
    DetectorState { capturing: Some(kind), buffer: seq![line], seen_stack_frame: false }
}

/// Buffers `line`, closing the block when it grows beyond the limit.
pub open spec fn spec_push_or_close(st: DetectorState, line: Seq<char>, timestamp_ms: i64) -> (
    DetectorState,
    Option<FlutterErrorView>,
) {
    let b = st.buffer.push(line);
    if b.len() > MAX_BUFFERED_LINES {
        (spec_closed(st), Some(spec_report(b, timestamp_ms)))
    } else {
        (DetectorState { capturing: st.capturing, buffer: b, seen_stack_frame: st.seen_stack_frame }, None)
    }
}

/// One step of the detector on an input line.
pub open spec fn spec_process_line(st: DetectorState, line: Seq<char>, timestamp_ms: i64) -> (
    DetectorState,
    Option<FlutterErrorView>,
) {
    let t = trim_end(line);
    match st.capturing {
        None => {
            if contains(t, EXCEPTION_BANNER_MARKER@) {
                (spec_opened(CaptureKind::FlutterBanner, t), None)
            } else if contains(lowercase(t), UNHANDLED_MARKER@) {
                (spec_opened(CaptureKind::PlainUnhandled, t), None)
            } else {
                (st, None)
            }
        },
        Some(CaptureKind::FlutterBanner) => {
            if is_separator_line(t) {
                (spec_closed(st), Some(spec_report(st.buffer, timestamp_ms)))
            } else {
                spec_push_or_close(st, t, timestamp_ms)
            }
        },
        Some(CaptureKind::PlainUnhandled) => {
            if starts_with(trim_start(t), seq!['#']) {
                spec_push_or_close(
                    DetectorState { capturing: st.capturing, buffer: st.buffer, seen_stack_frame: true },
                    t,
                    timestamp_ms,
                )
            } else if trim(t).len() == 0 || st.seen_stack_frame {
                (spec_closed(st), Some(spec_report(st.buffer, timestamp_ms)))
            } else {
                spec_push_or_close(st, t, timestamp_ms)
            }
        },
    }
}

/// Closing a pending block, if any.
pub open spec fn spec_flush(st: DetectorState, timestamp_ms: i64) -> (DetectorState, Option<FlutterErrorView>) {
    if st.capturing is Some {
        (spec_closed(st), Some(spec_report(st.buffer, timestamp_ms)))
    } else {
        (st, None)
    }
}

/// The detector's invariant: an idle detector buffers nothing, a capturing one at
/// least its first line, and never more than the limit.
pub open spec fn detector_wf(st: DetectorState) -> bool {
    &&& st.capturing is None ==> st.buffer.len() == 0
    &&& st.capturing is Some ==> st.buffer.len() >= 1
    &&& st.buffer.len() <= MAX_BUFFERED_LINES
}

/// Detects framework exceptions by parsing stdout/stderr line by line.
#[derive(Debug)]
pub struct ErrorDetector {
    capturing: Option<CaptureKind>,
    buffer: Vec<Vec<char>>,
    seen_stack_frame: bool,
}

impl View for ErrorDetector {
    type V = DetectorState;

    closed spec fn view(&self) -> DetectorState {
        DetectorState {
            capturing: self.capturing,
            buffer: views(self.buffer@),
            seen_stack_frame: self.seen_stack_frame,
        }
    }
}

impl ErrorDetector {
    /// An idle detector.
    pub fn new() -> (r: Self)
        ensures
            r@.capturing is None,
            r@.buffer.len() == 0,
            !r@.seen_stack_frame,
            detector_wf(r@),
    {
        ErrorDetector { capturing: None, buffer: Vec::new(), seen_stack_frame: false }
    }

    /// Feeds one stdout/stderr line; returns the complete error when the line closes a
    /// block being captured.
    pub fn process_line(&mut self, line: &str, timestamp_ms: i64) -> (r: Option<FlutterError>)
        requires
            detector_wf(old(self)@),
        ensures
            final(self)@ == spec_process_line(old(self)@, line@, timestamp_ms).0,
            match r {
                Some(e) => spec_process_line(old(self)@, line@, timestamp_ms).1 == Some(e@),
                None => spec_process_line(old(self)@, line@, timestamp_ms).1 is None,
            },
            detector_wf(final(self)@),
    {
        let v = to_chars(line);
        let trimmed = trim_end_chars(&v);
        match self.capturing {
            None => {
                if contains_str(&trimmed, EXCEPTION_BANNER_MARKER) {
                    self.start(CaptureKind::FlutterBanner, trimmed);
                } else {
                    let as_string = from_chars(&trimmed);
                    let lower = to_lowercase(as_string.as_str());
                    let lower_chars = to_chars(lower.as_str());
                    if contains_str(&lower_chars, UNHANDLED_MARKER) {
                        self.start(CaptureKind::PlainUnhandled, trimmed);
                    }
                }
                None
            },
            Some(CaptureKind::FlutterBanner) => {
                if Self::is_separator(&trimmed) {
                    return Some(self.finish(timestamp_ms));
                }
                self.push_or_force_close(trimmed, timestamp_ms)
            },
            Some(CaptureKind::PlainUnhandled) => {
                let lead = trim_start_chars(&trimmed);
                let is_stack_frame = lead.len() > 0 && lead[0] == '#';
                assert(is_stack_frame == starts_with(trim_start(trim_end(line@)), seq!['#'])) by {
                    if lead@.len() > 0 {
                        assert(lead@.take(1) == seq![lead@[0]]);
                        if lead@.take(1) == seq!['#'] {
                            assert(lead@.take(1)[0] == '#');
                        }
                    }
                }
                if is_stack_frame {
                    self.seen_stack_frame = true;
                    return self.push_or_force_close(trimmed, timestamp_ms);
                }
                let all_trimmed = trim_chars(&trimmed);
                if all_trimmed.len() == 0 || self.seen_stack_frame {
                    return Some(self.finish(timestamp_ms));
                }
                self.push_or_force_close(trimmed, timestamp_ms)
            },
        }
    }

    /// Forces a pending block closed (a plain unhandled exception only closes on the
    /// line after its stack, which may never come).
    pub fn flush(&mut self, timestamp_ms: i64) -> (r: Option<FlutterError>)
        requires
            detector_wf(old(self)@),
        ensures
            final(self)@ == spec_flush(old(self)@, timestamp_ms).0,
            match r {
                Some(e) => spec_flush(old(self)@, timestamp_ms).1 == Some(e@),
                None => spec_flush(old(self)@, timestamp_ms).1 is None,
            },
            detector_wf(final(self)@),
    {
        if self.capturing.is_some() {
            Some(self.finish(timestamp_ms))
        } else {
            None
        }
    }

    fn is_separator(l: &Vec<char>) -> (r: bool)
        ensures
            r == is_separator_line(l@),
    {
        if l.len() == 0 {
            return false;
        }
        let mut i: usize = 0;
        while i < l.len()
            invariant
                i <= l.len(),
                forall|j: int| 0 <= j < i ==> l@[j] == SEPARATOR_CHAR,
            decreases l.len() - i,
        {
            if l[i] != SEPARATOR_CHAR {
                return false;
            }
            i = i + 1;
        }
        true
    }

    fn start(&mut self, kind: CaptureKind, first_line: Vec<char>)
        ensures
            final(self)@ == spec_opened(kind, first_line@),
    {
        self.capturing = Some(kind);
        let mut b: Vec<Vec<char>> = Vec::new();
        b.push(first_line);
        self.buffer = b;
        self.seen_stack_frame = false;
        assert(views(self.buffer@) == seq![first_line@]);
    }

    fn push_or_force_close(&mut self, line: Vec<char>, timestamp_ms: i64) -> (r: Option<FlutterError>)
        requires
            old(self)@.buffer.len() <= MAX_BUFFERED_LINES,
        ensures
            final(self)@ == spec_push_or_close(old(self)@, line@, timestamp_ms).0,
            match r {
                Some(e) => spec_push_or_close(old(self)@, line@, timestamp_ms).1 == Some(e@),
                None => spec_push_or_close(old(self)@, line@, timestamp_ms).1 is None,
            },
    {
        let ghost before = self.buffer@;
        self.buffer.push(line);
        assert(views(self.buffer@) == views(before).push(line@));
        if self.buffer.len() > MAX_BUFFERED_LINES {
            return Some(self.finish(timestamp_ms));
        }
        None
    }

    fn finish(&mut self, timestamp_ms: i64) -> (r: FlutterError)
        ensures
            final(self)@ == spec_closed(old(self)@),
            r@ == spec_report(old(self)@.buffer, timestamp_ms),
    {
        self.capturing = None;
        let sep: Vec<char> = vec!['\n'];
        assert(sep@ == seq!['\n']);
        let full = join_chars(&self.buffer, &sep);
        self.buffer = Vec::new();
        assert(views(self.buffer@) == Seq::<Seq<char>>::empty());
        let (message, stack_trace) = Self::split_message_and_stack(&full);
        FlutterError {
            timestamp_ms,
            message,
            stack_trace,
            source: ErrorSource::StdoutHeuristic,
            occurrences: 1,
        }
    }

    fn split_message_and_stack(full: &Vec<char>) -> (r: (String, Option<String>))
        ensures
            (r.0@, opt_view(r.1)) == spec_split_message_and_stack(full@),
    {
        let ls = split_lines(full);
        let mut subs: Vec<Vec<char>> = Vec::new();
        let mut i: usize = 0;
        while i < ls.len()
            invariant
                i <= ls.len(),
                views(ls@) == lines(full@),
                views(subs@) == substantive(views(ls@).take(i as int)),
            decreases ls.len() - i,
        {
            let ghost prev = views(ls@).take(i as int);
            let ghost before = subs@;
            proof {
                let t = views(ls@).take(i + 1);
                assert(t.drop_last() == prev);
                assert(t.last() == ls@[i as int]@);
            }
            if !Self::is_separator(&ls[i]) {
                subs.push(ls[i].clone());
                assert(views(subs@) == views(before).push(ls@[i as int]@));
            }
            i = i + 1;
        }
        assert(views(ls@).take(ls.len() as int) == views(ls@));
        let message = if subs.len() > 0 {
            from_chars(&trim_chars(&subs[0]))
        } else {
            from_chars(&trim_chars(full))
        };
        if subs.len() <= 1 {
            (message, None)
        } else {
            let ghost all = subs@;
            let rest: Vec<Vec<char>> = subs.split_off(1);
            assert(views(rest@) == views(all).drop_first());
            let sep: Vec<char> = vec!['\n'];
            assert(sep@ == seq!['\n']);
            let joined = join_chars(&rest, &sep);
            (message, Some(from_chars(&joined)))
        }
    }
}

// ---------------------------------------------------------------------------
// Laws
// ---------------------------------------------------------------------------

/// Every step keeps the detector's invariant: in particular the buffer of a block that
/// never closes stays bounded.
pub proof fn law_process_line_keeps_wf(st: DetectorState, line: Seq<char>, timestamp_ms: i64)
    requires
        detector_wf(st),
    ensures
        detector_wf(spec_process_line(st, line, timestamp_ms).0),
        detector_wf(spec_flush(st, timestamp_ms).0),
{
}

/// A line that closes a block leaves the detector idle, and every reported error is a
/// stdout heuristic detection counted once.
pub proof fn law_reported_error_closes_block(st: DetectorState, line: Seq<char>, timestamp_ms: i64)
    requires
        detector_wf(st),
        spec_process_line(st, line, timestamp_ms).1 is Some,
    ensures
        spec_process_line(st, line, timestamp_ms).0.capturing is None,
        spec_process_line(st, line, timestamp_ms).0.buffer.len() == 0,
        spec_process_line(st, line, timestamp_ms).1->0.source == ErrorSource::StdoutHeuristic,
        spec_process_line(st, line, timestamp_ms).1->0.occurrences == 1,
        spec_process_line(st, line, timestamp_ms).1->0.timestamp_ms == timestamp_ms,
{
}

/// While idle, a line without either marker is ignored: nothing is reported and the
/// state does not change.
pub proof fn law_idle_ignores_unrelated_lines(st: DetectorState, line: Seq<char>, timestamp_ms: i64)
    requires
        st.capturing is None,
        !contains(trim_end(line), EXCEPTION_BANNER_MARKER@),
        !contains(lowercase(trim_end(line)), UNHANDLED_MARKER@),
    ensures
        spec_process_line(st, line, timestamp_ms) == (st, None::<FlutterErrorView>),
{
}

/// Flushing reports exactly the pending block, and flushing again reports nothing.
pub proof fn law_flush_reports_pending_block_once(st: DetectorState, t1: i64, t2: i64)
    requires
        detector_wf(st),
    ensures
        spec_flush(st, t1).1 is Some <==> st.capturing is Some,
        spec_flush(spec_flush(st, t1).0, t2).1 is None,
{
}

/// The pieces joined with a separator: the first piece, the separator, then the others.
proof fn lemma_join_first(b: Seq<Seq<char>>, sep: Seq<char>)
    requires
        b.len() >= 2,
    ensures
        join(b, sep) == b[0] + sep + join(b.drop_first(), sep),
    decreases b.len(),
{
    if b.len() == 2 {
        assert(b.drop_last().len() == 1);
        assert(b.drop_first().len() == 1);
        assert(join(b.drop_last(), sep) == b[0]);
        assert(join(b.drop_first(), sep) == b[1]);
    } else {
        lemma_join_first(b.drop_last(), sep);
        assert(b.drop_last().drop_first() == b.drop_first().drop_last());
        assert(b.drop_first().last() == b.last());
        assert(join(b.drop_first(), sep) == join(b.drop_first().drop_last(), sep) + sep + b.last());
        assert(join(b, sep) == join(b.drop_last(), sep) + sep + b.last());
        assert(b.drop_last()[0] == b[0]);
    }
}

/// A first line that is not a separator is the first substantive line.
proof fn lemma_substantive_first(ls: Seq<Seq<char>>)
    requires
        ls.len() > 0,
        !is_separator_line(ls[0]),
    ensures
        substantive(ls).len() > 0,
        substantive(ls)[0] == ls[0],
    decreases ls.len(),
{
    if ls.len() > 1 {
        assert(ls.drop_last()[0] == ls[0]);
        lemma_substantive_first(ls.drop_last());
        let sd = substantive(ls.drop_last());
        if !is_separator_line(ls.last()) {
            assert(sd.push(ls.last())[0] == sd[0]);
        }
    } else {
        assert(ls.drop_last().len() == 0);
        assert(ls.last() == ls[0]);
        assert(substantive(ls.drop_last()) == Seq::<Seq<char>>::empty());
        assert(substantive(ls) == Seq::<Seq<char>>::empty().push(ls[0]));
    }
}

/// A text that does not end with whitespace keeps its last character through `strip_cr`.
proof fn lemma_trim_end_has_no_cr(x: Seq<char>)
    ensures
        strip_cr(trim_end(x)) == trim_end(x),
    decreases x.len(),
{
    if x.len() > 0 && is_ws(x.last()) {
        lemma_trim_end_has_no_cr(x.drop_last());
    }
}

/// The message of a captured block is its first line, trimmed, when that line holds no
/// line break and is not a separator.
proof fn lemma_message_is_first_line(b: Seq<Seq<char>>)
    requires
        b.len() > 0,
        !b[0].contains('\n'),
        !is_separator_line(b[0]),
        strip_cr(b[0]) == b[0],
    ensures
        spec_split_message_and_stack(join(b, seq!['\n'])).0 == trim(b[0]),
{
    let full = join(b, seq!['\n']);
    let b0 = b[0];
    if b.len() == 1 {
        assert(full == b0);
        if b0.len() > 0 {
            assert forall|i: int| 0 <= i < b0.len() implies !matches_at(b0, seq!['\n'], i) by {
                if matches_at(b0, seq!['\n'], i) {
                    assert(b0.subrange(i, i + 1)[0] == b0[i]);
                    assert(b0.contains('\n'));
                }
            }
            assert(find(b0, seq!['\n']) is None) by {
                if find(b0, seq!['\n']) is Some {
                    lemma_find_from_first(b0, seq!['\n'], 0);
                    let k = find(b0, seq!['\n'])->0;
                    lemma_single_char_match(b0, '\n', k);
                    assert(b0.contains('\n'));
                }
            }
            assert(lines(full) == seq![b0]);
            lemma_substantive_first(lines(full));
        } else {
            assert(lines(full).len() == 0);
        }
    } else {
        lemma_join_first(b, seq!['\n']);
        let rest = join(b.drop_first(), seq!['\n']);
        assert(full == b0 + seq!['\n'] + rest);
        let k = b0.len() as int;
        assert forall|j: int| 0 <= j < k implies full[j] != '\n' by {
            assert(full[j] == b0[j]);
        }
        assert(full[k] == '\n');
        lemma_find_char(full, '\n', k);
        assert(full.take(k) == b0);
        assert(full.skip(k + 1) == rest);
        assert(lines(full) == seq![strip_cr(b0)] + lines(rest));
        lemma_substantive_first(lines(full));
    }
}

/// The line a block is opened with is kept, without trailing whitespace, as the first
/// buffered line while the block stays open.
pub open spec fn opened_by(st: DetectorState, opening: Seq<char>) -> bool {
    st.capturing is Some && st.buffer.len() > 0 && st.buffer[0] == trim_end(opening)
}

/// An idle detector fed a line with a marker opens a block with that line.
pub proof fn law_marker_opens_block(st: DetectorState, line: Seq<char>, timestamp_ms: i64)
    requires
        st.capturing is None,
        contains(trim_end(line), EXCEPTION_BANNER_MARKER@) || contains(lowercase(trim_end(line)), UNHANDLED_MARKER@),
    ensures
        opened_by(spec_process_line(st, line, timestamp_ms).0, line),
        spec_process_line(st, line, timestamp_ms).1 is None,
{
}

/// While a block is open, a line that does not close it keeps its opening line; when a
/// line (or a flush) closes it, the error reported has the call's timestamp and, as its
/// message, the trimmed opening line, provided that line holds no line break and is not a
/// separator line.
pub proof fn law_report_message_is_opening_line(st: DetectorState, opening: Seq<char>, line: Seq<char>, timestamp_ms: i64)
    requires
        detector_wf(st),
        opened_by(st, opening),
        !opening.contains('\n'),
        !is_separator_line(trim_end(opening)),
    ensures
        spec_process_line(st, line, timestamp_ms).1 is None ==> opened_by(spec_process_line(st, line, timestamp_ms).0, opening),
        spec_process_line(st, line, timestamp_ms).1 matches Some(e) ==> e.message == trim(opening)
            && e.timestamp_ms == timestamp_ms,
        spec_flush(st, timestamp_ms).1 matches Some(e) ==> e.message == trim(opening)
            && e.timestamp_ms == timestamp_ms,
{
    let b0 = trim_end(opening);
    lemma_trim_of_trim_end(opening);
    lemma_trim_end_has_no_cr(opening);
    assert(!b0.contains('\n')) by {
        lemma_trim_end_prefix(opening);
        if b0.contains('\n') {
            let i = choose|i: int| 0 <= i < b0.len() && b0[i] == '\n';
            assert(opening[i] == '\n');
        }
    }
    lemma_message_is_first_line(st.buffer);
    let t = trim_end(line);
    lemma_message_is_first_line(st.buffer.push(t));
    assert(st.buffer.push(t)[0] == b0);
}

/// Trimming the end keeps a prefix of the text.
proof fn lemma_trim_end_prefix(x: Seq<char>)
    ensures
        trim_end(x).len() <= x.len(),
        forall|i: int| 0 <= i < trim_end(x).len() ==> trim_end(x)[i] == x[i],
    decreases x.len(),
{
    if x.len() > 0 && is_ws(x.last()) {
        lemma_trim_end_prefix(x.drop_last());
        assert forall|i: int| 0 <= i < trim_end(x).len() implies trim_end(x)[i] == x[i] by {
            assert(x.drop_last()[i] == x[i]);
        }
    }
}

/// Trimming the end keeps every character up to the last one that is not whitespace.
proof fn lemma_trim_end_keeps(x: Seq<char>, k: int)
    requires
        0 <= k < x.len(),
        !is_ws(x[k]),
    ensures
        trim_end(x).len() > k,
    decreases x.len(),
{
    if is_ws(x.last()) {
        assert(k < x.len() - 1);
        assert(x.drop_last()[k] == x[k]);
        lemma_trim_end_keeps(x.drop_last(), k);
    }
}

/// The first character of a line that is not whitespace is the first of its trimmed form.
proof fn lemma_first_visible(line: Seq<char>, k: int)
    requires
        0 <= k < line.len(),
        !is_ws(line[k]),
        forall|j: int| 0 <= j < k ==> is_ws(line[j]),
    ensures
        trim_start(trim_end(line)).len() > 0,
        trim_start(trim_end(line))[0] == line[k],
{
    let t = trim_end(line);
    lemma_trim_end_prefix(line);
    lemma_trim_end_keeps(line, k);
    assert forall|j: int| 0 <= j < k implies is_ws(#[trigger] t[j]) by {
        assert(t[j] == line[j]);
    }
    crate::text::lemma_trim_start_skip(t, k);
    let r = t.skip(k);
    assert(r[0] == line[k]);
    assert(trim_start(r) == r);
}

/// While a plain unhandled exception is being captured, a stack-frame line (its first
/// character that is not whitespace is `#`) is added to the block, with trailing
/// whitespace removed, and never closes it, however many frames came before, unless the
/// block is already full.
pub proof fn law_stack_frames_are_buffered(st: DetectorState, line: Seq<char>, timestamp_ms: i64, k: int)
    requires
        detector_wf(st),
        st.capturing == Some(CaptureKind::PlainUnhandled),
        st.buffer.len() < MAX_BUFFERED_LINES,
        0 <= k < line.len(),
        line[k] == '#',
        forall|j: int| 0 <= j < k ==> is_ws(line[j]),
    ensures
        spec_process_line(st, line, timestamp_ms).1 is None,
        spec_process_line(st, line, timestamp_ms).0.capturing == Some(CaptureKind::PlainUnhandled),
        spec_process_line(st, line, timestamp_ms).0.buffer == st.buffer.push(trim_end(line)),
        spec_process_line(st, line, timestamp_ms).0.seen_stack_frame,
{
    lemma_first_visible(line, k);
    let x = trim_start(trim_end(line));
    assert(x.take(1) == seq!['#']);
}

/// The last character of joined pieces is that of the last piece, when it has one.
proof fn lemma_join_last(b: Seq<Seq<char>>)
    requires
        b.len() >= 1,
        b.last().len() > 0,
    ensures
        join(b, seq!['\n']).len() > 0,
        join(b, seq!['\n']).last() == b.last().last(),
{
    if b.len() == 1 {
        assert(join(b, seq!['\n']) == b[0]);
    }
}

/// Lines that hold no line feed and end in a visible character are read back by `lines`
/// once joined with line feeds.
proof fn lemma_lines_of_join(b: Seq<Seq<char>>)
    requires
        b.len() >= 1,
        forall|i: int| 0 <= i < b.len() ==> (#[trigger] b[i]).len() > 0 && !is_ws(b[i].last()) && !b[i].contains('\n'),
    ensures
        lines(join(b, seq!['\n'])) == b,
    decreases b.len(),
{
    let l = b.last();
    assert(b[b.len() - 1] == l);
    assert forall|j: int| 0 <= j < l.len() implies l[j] != '\n' by {
        if l[j] == '\n' {
            assert(l.contains('\n'));
        }
    }
    crate::text::lemma_find_char_none(l, '\n');
    assert(lines(l) == seq![l]);
    if b.len() == 1 {
        assert(join(b, seq!['\n']) == b[0]);
    } else {
        let d = b.drop_last();
        assert forall|i: int| 0 <= i < d.len() implies (#[trigger] d[i]).len() > 0 && !is_ws(d[i].last()) && !d[i].contains('\n') by {
            assert(d[i] == b[i]);
        }
        lemma_lines_of_join(d);
        assert(d[d.len() - 1] == d.last());
        lemma_join_last(d);
        let jd = join(d, seq!['\n']);
        assert(jd.last() != '\n' && jd.last() != '\r');
        crate::services::driver_injector::lemma_lines_push_newline(jd);
        assert(join(b, seq!['\n']) == jd.push('\n') + l);
        crate::services::driver_injector::lemma_lines_concat(jd.push('\n'), l);
        assert(d.push(l) == b);
    }
}

/// Lines none of which is a separator are all substantive.
proof fn lemma_substantive_all(b: Seq<Seq<char>>)
    requires
        forall|i: int| 0 <= i < b.len() ==> !is_separator_line(#[trigger] b[i]),
    ensures
        substantive(b) == b,
    decreases b.len(),
{
    if b.len() > 0 {
        let d = b.drop_last();
        assert forall|i: int| 0 <= i < d.len() implies !is_separator_line(#[trigger] d[i]) by {
            assert(d[i] == b[i]);
        }
        lemma_substantive_all(d);
        assert(b[b.len() - 1] == b.last());
        assert(d.push(b.last()) == b);
    }
}

/// The error reported for a block: the block's first line without surrounding
/// whitespace is the message, the block's other lines joined by line feeds are the stack
/// trace (none for a one-line block), with the timestamp given, as a stdout detection
/// seen once. This holds of blocks whose lines are not empty, end in a character that is
/// not whitespace, hold no line feed and are not separator lines.
pub proof fn law_report_of_block(b: Seq<Seq<char>>, timestamp_ms: i64)
    requires
        b.len() >= 1,
        forall|i: int| 0 <= i < b.len() ==> (#[trigger] b[i]).len() > 0 && !is_ws(b[i].last()) && !b[i].contains('\n')
            && !is_separator_line(b[i]),
    ensures
        spec_report(b, timestamp_ms).message == trim(b[0]),
        spec_report(b, timestamp_ms).stack_trace == (if b.len() == 1 {
            None
        } else {
            Some(join(b.drop_first(), seq!['\n']))
        }),
        spec_report(b, timestamp_ms).timestamp_ms == timestamp_ms,
        spec_report(b, timestamp_ms).source == ErrorSource::StdoutHeuristic,
        spec_report(b, timestamp_ms).occurrences == 1,
{
    lemma_lines_of_join(b);
    lemma_substantive_all(b);
}

/// Trimming a line made only of whitespace leaves nothing.
proof fn lemma_blank_line(line: Seq<char>)
    requires
        forall|j: int| 0 <= j < line.len() ==> is_ws(line[j]),
    ensures
        trim_end(line).len() == 0,
        trim(trim_end(line)).len() == 0,
{
    crate::text::lemma_trim_end_take(line, 0);
    assert(line.take(0) == Seq::<char>::empty());
    assert(trim_end(line) == Seq::<char>::empty());
    assert(trim_start(Seq::<char>::empty()) == Seq::<char>::empty());
}

/// While a plain unhandled exception is being captured, a line made only of whitespace
/// closes the block and reports the lines captured so far (the blank line is not one
/// of them).
pub proof fn law_blank_line_closes_plain_block(st: DetectorState, line: Seq<char>, timestamp_ms: i64)
    requires
        detector_wf(st),
        st.capturing == Some(CaptureKind::PlainUnhandled),
        forall|j: int| 0 <= j < line.len() ==> is_ws(line[j]),
    ensures
        spec_process_line(st, line, timestamp_ms).1 == Some(spec_report(st.buffer, timestamp_ms)),
        spec_process_line(st, line, timestamp_ms).0.capturing is None,
        spec_process_line(st, line, timestamp_ms).0.buffer.len() == 0,
{
    lemma_blank_line(line);
    let t = trim_end(line);
    assert(t.len() == 0);
    assert(trim_start(t) == t);
    assert(!starts_with(trim_start(t), seq!['#']));
}

/// While a plain unhandled exception is being captured, a line whose first character
/// that is not whitespace is not `#` closes the block once a stack frame has been seen,
/// reporting the lines captured so far; before any frame it is added to the block
/// (trailing whitespace removed), unless the block is full.
pub proof fn law_text_line_in_plain_block(st: DetectorState, line: Seq<char>, timestamp_ms: i64, k: int)
    requires
        detector_wf(st),
        st.capturing == Some(CaptureKind::PlainUnhandled),
        0 <= k < line.len(),
        !is_ws(line[k]),
        line[k] != '#',
        forall|j: int| 0 <= j < k ==> is_ws(line[j]),
    ensures
        st.seen_stack_frame ==> spec_process_line(st, line, timestamp_ms).1 == Some(spec_report(st.buffer, timestamp_ms))
            && spec_process_line(st, line, timestamp_ms).0.capturing is None,
        !st.seen_stack_frame && st.buffer.len() < MAX_BUFFERED_LINES ==> spec_process_line(st, line, timestamp_ms).1 is None
            && spec_process_line(st, line, timestamp_ms).0.capturing == Some(CaptureKind::PlainUnhandled)
            && spec_process_line(st, line, timestamp_ms).0.buffer == st.buffer.push(trim_end(line))
            && !spec_process_line(st, line, timestamp_ms).0.seen_stack_frame,
{
    lemma_first_visible(line, k);
    let t = trim_end(line);
    let x = trim_start(t);
    assert(!starts_with(x, seq!['#'])) by {
        if starts_with(x, seq!['#']) {
            assert(x.take(1)[0] == x[0]);
        }
    }
    crate::text::lemma_trim_commute(t);
    crate::text::lemma_trim_end_last(line);
    assert(trim(t) == x);
    assert(trim(t).len() > 0);
}

/// Feeding lines in order: the final state and the errors reported, in order.
pub open spec fn spec_feed(st: DetectorState, ls: Seq<Seq<char>>, timestamp_ms: i64) -> (DetectorState, Seq<FlutterErrorView>)
    decreases ls.len(),
{
    if ls.len() == 0 {
        (st, Seq::empty())
    } else {
        let (s1, out) = spec_feed(st, ls.drop_last(), timestamp_ms);
        let (s2, r) = spec_process_line(s1, ls.last(), timestamp_ms);
        (s2, match r {
            Some(e) => out.push(e),
            None => out,
        })
    }
}

/// The lines of a plain unhandled exception as captured: trailing whitespace removed.
pub open spec fn captured(ls: Seq<Seq<char>>) -> Seq<Seq<char>> {
    ls.map_values(|l: Seq<char>| trim_end(l))
}

/// Feeding one more line.
proof fn lemma_feed_push(st: DetectorState, ls: Seq<Seq<char>>, l: Seq<char>, timestamp_ms: i64)
    ensures
        spec_feed(st, ls.push(l), timestamp_ms).0 == spec_process_line(spec_feed(st, ls, timestamp_ms).0, l, timestamp_ms).0,
        spec_process_line(spec_feed(st, ls, timestamp_ms).0, l, timestamp_ms).1 is None
            ==> spec_feed(st, ls.push(l), timestamp_ms).1 == spec_feed(st, ls, timestamp_ms).1,
        spec_process_line(spec_feed(st, ls, timestamp_ms).0, l, timestamp_ms).1 matches Some(e)
            ==> spec_feed(st, ls.push(l), timestamp_ms).1 == spec_feed(st, ls, timestamp_ms).1.push(e),
{
    assert(ls.push(l).drop_last() == ls);
    assert(ls.push(l).last() == l);
}

proof fn lemma_feed_opening(opening: Seq<char>, timestamp_ms: i64)
    requires
        !contains(trim_end(opening), EXCEPTION_BANNER_MARKER@),
        contains(lowercase(trim_end(opening)), UNHANDLED_MARKER@),
    ensures
        spec_feed(DetectorState { capturing: None, buffer: Seq::empty(), seen_stack_frame: false }, seq![opening], timestamp_ms)
            == (DetectorState {
                capturing: Some(CaptureKind::PlainUnhandled),
                buffer: seq![trim_end(opening)],
                seen_stack_frame: false,
            }, Seq::<FlutterErrorView>::empty()),
{
    let idle = DetectorState { capturing: None, buffer: Seq::<Seq<char>>::empty(), seen_stack_frame: false };
    lemma_feed_push(idle, Seq::<Seq<char>>::empty(), opening, timestamp_ms);
    assert(Seq::<Seq<char>>::empty().push(opening) == seq![opening]);
    assert(spec_feed(idle, Seq::<Seq<char>>::empty(), timestamp_ms) == (idle, Seq::<FlutterErrorView>::empty()));
}

#[verifier::spinoff_prover]
proof fn lemma_feed_frames(opening: Seq<char>, frames: Seq<Seq<char>>, ks: Seq<int>, timestamp_ms: i64, m: int)
    requires
        !contains(trim_end(opening), EXCEPTION_BANNER_MARKER@),
        contains(lowercase(trim_end(opening)), UNHANDLED_MARKER@),
        frames.len() < MAX_BUFFERED_LINES,
        ks.len() == frames.len(),
        forall|i: int| 0 <= i < frames.len() ==> 0 <= #[trigger] ks[i] < frames[i].len() && frames[i][ks[i]] == '#'
            && forall|j: int| 0 <= j < ks[i] ==> is_ws(frames[i][j]),
        0 <= m <= frames.len(),
    ensures
        spec_feed(DetectorState { capturing: None, buffer: Seq::empty(), seen_stack_frame: false }, seq![opening] + frames.take(m), timestamp_ms)
            == (DetectorState {
                capturing: Some(CaptureKind::PlainUnhandled),
                buffer: seq![trim_end(opening)] + captured(frames.take(m)),
                seen_stack_frame: m > 0,
            }, Seq::<FlutterErrorView>::empty()),
    decreases m,
{
    let idle = DetectorState { capturing: None, buffer: Seq::<Seq<char>>::empty(), seen_stack_frame: false };
    if m == 0 {
        lemma_feed_opening(opening, timestamp_ms);
        assert(seq![opening] + frames.take(0) == seq![opening]);
        assert(captured(frames.take(0)) == Seq::<Seq<char>>::empty());
        assert(seq![trim_end(opening)] + captured(frames.take(0)) == seq![trim_end(opening)]);
    } else {
        lemma_feed_frames(opening, frames, ks, timestamp_ms, m - 1);
        let prev = seq![opening] + frames.take(m - 1);
        let f = frames[m - 1];
        assert(seq![opening] + frames.take(m) == prev.push(f));
        let st = spec_feed(idle, prev, timestamp_ms).0;
        let k = ks[m - 1];
        assert(0 <= k < f.len() && f[k] == '#' && forall|j: int| 0 <= j < k ==> is_ws(f[j]));
        law_stack_frames_are_buffered(st, f, timestamp_ms, k);
        lemma_feed_push(idle, prev, f, timestamp_ms);
        assert(captured(frames.take(m)) == captured(frames.take(m - 1)).push(trim_end(f)));
        assert(seq![trim_end(opening)] + captured(frames.take(m)) == (seq![trim_end(opening)] + captured(frames.take(m - 1))).push(trim_end(f)));
    }
}

/// A plain unhandled exception keeps every frame of its stack: fed an idle detector,
/// its opening line, then stack-frame lines (each one's first character that is not
/// whitespace is `#`), then a blank line, yields exactly one error, whose message is the
/// opening line trimmed and whose stack trace is every frame line, trailing whitespace
/// removed, in order, joined by line feeds (none without frames). The lines hold no line
/// feed, and the stack has fewer frames than the block can hold.
pub proof fn law_unhandled_block_keeps_every_frame(
    opening: Seq<char>,
    ko: int,
    frames: Seq<Seq<char>>,
    ks: Seq<int>,
    blank: Seq<char>,
    timestamp_ms: i64,
)
    requires
        !contains(trim_end(opening), EXCEPTION_BANNER_MARKER@),
        contains(lowercase(trim_end(opening)), UNHANDLED_MARKER@),
        0 <= ko < opening.len(),
        !is_ws(opening[ko]),
        !opening.contains('\n'),
        !is_separator_line(trim_end(opening)),
        frames.len() < MAX_BUFFERED_LINES,
        ks.len() == frames.len(),
        forall|i: int| 0 <= i < frames.len() ==> 0 <= #[trigger] ks[i] < frames[i].len() && frames[i][ks[i]] == '#'
            && forall|j: int| 0 <= j < ks[i] ==> is_ws(frames[i][j]),
        forall|i: int| 0 <= i < frames.len() ==> !(#[trigger] frames[i]).contains('\n'),
        forall|j: int| 0 <= j < blank.len() ==> is_ws(blank[j]),
    ensures
        spec_feed(
            DetectorState { capturing: None, buffer: Seq::empty(), seen_stack_frame: false },
            seq![opening] + frames + seq![blank],
            timestamp_ms,
        ).1 == seq![FlutterErrorView {
            timestamp_ms,
            message: trim(opening),
            stack_trace: if frames.len() == 0 { None } else { Some(join(captured(frames), seq!['\n'])) },
            source: ErrorSource::StdoutHeuristic,
            occurrences: 1,
        }],
{
    let idle = DetectorState { capturing: None, buffer: Seq::<Seq<char>>::empty(), seen_stack_frame: false };
    let n = frames.len() as int;
    lemma_feed_frames(opening, frames, ks, timestamp_ms, n);
    assert(frames.take(n) == frames);
    let ls = seq![opening] + frames + seq![blank];
    assert(ls.drop_last() == seq![opening] + frames.take(n));
    assert(ls.last() == blank);
    let b = seq![trim_end(opening)] + captured(frames);
    let st = DetectorState { capturing: Some(CaptureKind::PlainUnhandled), buffer: b, seen_stack_frame: n > 0 };
    law_blank_line_closes_plain_block(st, blank, timestamp_ms);
    // the block's lines
    lemma_trim_end_prefix(opening);
    lemma_trim_end_keeps(opening, ko);
    crate::text::lemma_trim_end_last(opening);
    assert forall|i: int| 0 <= i < b.len() implies (#[trigger] b[i]).len() > 0 && !is_ws(b[i].last()) && !b[i].contains('\n')
        && !is_separator_line(b[i]) by {
        if i == 0 {
            let t = trim_end(opening);
            assert(b[0] == t);
            if t.contains('\n') {
                let x = choose|x: int| 0 <= x < t.len() && t[x] == '\n';
                assert(opening[x] == '\n');
                assert(opening.contains('\n'));
            }
        } else {
            let f = frames[i - 1];
            let k = ks[i - 1];
            assert(b[i] == trim_end(f));
            lemma_trim_end_prefix(f);
            lemma_trim_end_keeps(f, k);
            crate::text::lemma_trim_end_last(f);
            let t = trim_end(f);
            assert(t[k] == '#');
            if t.contains('\n') {
                let x = choose|x: int| 0 <= x < t.len() && t[x] == '\n';
                assert(f[x] == '\n');
                assert(f.contains('\n'));
            }
        }
    }
    law_report_of_block(b, timestamp_ms);
    lemma_trim_of_trim_end(opening);
    assert(b.drop_first() == captured(frames));
}

} // verus!
