//! Gestures on widgets and the Flutter Driver commands that perform them.
//!
//! A gesture is dispatched by a small state machine: it names the next command to send,
//! the transport sends it and hands back how it went, until the machine finishes with
//! the gesture's result.

use vstd::prelude::*;
use crate::application::error::ApplicationError;
use crate::entities::{WidgetNode, nodes_view};
use crate::finder::{Finder, is_driver_params, is_str_field};
use crate::json::JsonValue;
use crate::text::{decimal, decimal_chars, decimal_string, extend_chars, extend_str, from_chars};
use crate::vm::driver::{
    append_candidate_hint, is_hinted, is_set_str, is_timed_fields, set_str, timed_finder_params,
};

verus! {

broadcast use vstd::string::group_string_axioms;

/// An action or gesture performed on a widget or the screen.
///
/// Offsets, the alignment and the scroll delta are real numbers; they are held as the
/// decimal text Flutter Driver receives for them (Rust's `Display` of the `f64`).
#[derive(Debug, Clone, PartialEq)]
pub enum Gesture {
    /// A tap; `timeout_ms`, when given, is used as the command's timeout and skips the
    /// pre-check of the finder.
    Tap { finder: Finder, timeout_ms: Option<u64> },
    /// A tap that focuses a field, then text entry; `timeout_ms` applies to the tap only.
    EnterText { finder: Finder, text: String, timeout_ms: Option<u64> },
    /// A tap that focuses a field, then entry of the empty text.
    ClearText { finder: Finder, timeout_ms: Option<u64> },
    /// A drag of `dx`, `dy` pixels over `duration_ms` at `frequency` Hz.
    Scroll {
        finder: Finder,
        dx: String,
        dy: String,
        duration_ms: u64,
        frequency: u32,
        timeout_ms: Option<u64>,
    },
    /// Scrolls the enclosing scrollable until the widget is visible at `alignment`.
    ScrollIntoView { finder: Finder, alignment: String, timeout_ms: Option<u64> },
    /// Scrolls `scrollable` (any `Scrollable` by default) by `delta` until `target`
    /// appears, at most `max_scrolls` times.
    ScrollUntilVisible { scrollable: Option<Finder>, target: Finder, delta: String, max_scrolls: u32 },
}

/// A command of the `ext.flutter.driver` extension and its parameters.
#[derive(Debug, PartialEq)]
pub struct DriverCommand {
    pub command: String,
    pub params: JsonValue,
}

/// Where the dispatch of a gesture stands.
#[derive(Debug, Clone, Copy, PartialEq, Eq, Structural)]
pub enum GesturePhase {
    /// The command on the gesture's finder is out; an error it reports gets the hint of
    /// the similar candidates.
    FinderCommand,
    /// The text entry that follows the focusing tap is out.
    TextEntry,
    /// The check for the target is out, after this many scrolls.
    Checking(u32),
    /// A scroll is out, after this many earlier scrolls.
    Scrolling(u32),
    /// The gesture has finished.
    Done,
}

/// The dispatch of one gesture: the gesture, the timeout decided for its finder's command,
/// the similar candidates the pre-check found, and where it stands.
#[derive(Debug)]
pub struct GestureRun {
    pub gesture: Gesture,
    pub timeout_ms: u64,
    pub candidates: Vec<WidgetNode>,
    pub phase: GesturePhase,
}

/// What the transport does next.
#[derive(Debug)]
pub enum GestureAction {
    /// Send this command and hand back whether it succeeded.
    Send(DriverCommand),
    /// The gesture is over, with this result.
    Finish(Result<(), ApplicationError>),
}

// ---------------------------------------------------------------------------
// Specification
// ---------------------------------------------------------------------------

/// Timeout of the check for the target of a scroll-until-visible, in milliseconds.
pub const CHECK_TIMEOUT_MS: u64 = 500;

/// A gesture whose numbers fit the command that carries them (the drag duration is sent
/// in microseconds).
pub open spec fn gesture_wf(g: Gesture) -> bool {
    match g {
        Gesture::Scroll { duration_ms, .. } => duration_ms * 1000 <= u64::MAX,
        _ => true,
    }
}

/// The finder whose command starts the gesture, with the explicit timeout given for it.
pub open spec fn spec_gesture_finder(g: Gesture) -> Option<(Finder, Option<u64>)> {
    match g {
        Gesture::Tap { finder, timeout_ms } => Some((finder, timeout_ms)),
        Gesture::EnterText { finder, timeout_ms, .. } => Some((finder, timeout_ms)),
        Gesture::ClearText { finder, timeout_ms } => Some((finder, timeout_ms)),
        Gesture::Scroll { finder, timeout_ms, .. } => Some((finder, timeout_ms)),
        Gesture::ScrollIntoView { finder, timeout_ms, .. } => Some((finder, timeout_ms)),
        Gesture::ScrollUntilVisible { .. } => None,
    }
}

/// A finder's driver parameters followed by the drag fields of a `scroll` command.
pub open spec fn is_scroll_fields(
    fields: Seq<(String, JsonValue)>,
    f: Finder,
    dx: Seq<char>,
    dy: Seq<char>,
    duration: Seq<char>,
    frequency: Seq<char>,
    timeout: Seq<char>,
) -> bool {
    exists|b0: Seq<(String, JsonValue)>, b1: Seq<(String, JsonValue)>, b2: Seq<(String, JsonValue)>, b3: Seq<(String, JsonValue)>, b4: Seq<(String, JsonValue)>|
        #![trigger is_driver_params(f, b0), is_set_str(b1, b0, "dx"@, dx), is_set_str(b2, b1, "dy"@, dy), is_set_str(b3, b2, "duration"@, duration), is_set_str(b4, b3, "frequency"@, frequency)]
        {
            &&& is_driver_params(f, b0)
            &&& is_set_str(b1, b0, "dx"@, dx)
            &&& is_set_str(b2, b1, "dy"@, dy)
            &&& is_set_str(b3, b2, "duration"@, duration)
            &&& is_set_str(b4, b3, "frequency"@, frequency)
            &&& is_set_str(fields, b4, "timeout"@, timeout)
        }
}

/// A finder's driver parameters followed by the fields of a `scrollIntoView` command.
pub open spec fn is_align_fields(fields: Seq<(String, JsonValue)>, f: Finder, alignment: Seq<char>, timeout: Seq<char>) -> bool {
    exists|b0: Seq<(String, JsonValue)>, b1: Seq<(String, JsonValue)>|
        #![trigger is_driver_params(f, b0), is_set_str(b1, b0, "alignment"@, alignment)]
        {
            &&& is_driver_params(f, b0)
            &&& is_set_str(b1, b0, "alignment"@, alignment)
            &&& is_set_str(fields, b1, "timeout"@, timeout)
        }
}

/// The action sends command `name` with a finder's parameters and a timeout.
pub open spec fn sends_timed(act: GestureAction, name: Seq<char>, f: Finder, timeout_ms: u64) -> bool {
    &&& act matches GestureAction::Send(c)
    &&& c.command@ == name
    &&& c.params matches JsonValue::Object(fields)
    &&& is_timed_fields(fields@, f, timeout_ms)
}

/// The action sends a `scroll` command.
pub open spec fn sends_scroll(
    act: GestureAction,
    f: Finder,
    dx: Seq<char>,
    dy: Seq<char>,
    duration: Seq<char>,
    frequency: Seq<char>,
    timeout: Seq<char>,
) -> bool {
    &&& act matches GestureAction::Send(c)
    &&& c.command@ == "scroll"@
    &&& c.params matches JsonValue::Object(fields)
    &&& is_scroll_fields(fields@, f, dx, dy, duration, frequency, timeout)
}

/// The action sends the `enter_text` command for `text`.
pub open spec fn sends_text(act: GestureAction, text: Seq<char>) -> bool {
    &&& act matches GestureAction::Send(c)
    &&& c.command@ == "enter_text"@
    &&& c.params matches JsonValue::Object(fields)
    &&& fields@.len() == 2
    &&& is_str_field(fields@[0], "text"@, text)
    &&& is_str_field(fields@[1], "timeout"@, "5000"@)
}

/// The finder is a type finder for `Scrollable`, or the one given.
pub open spec fn is_scroll_finder(f: Finder, scrollable: Option<Finder>) -> bool {
    match scrollable {
        Some(s) => f == s,
        None => f matches Finder::Type(t) && t@ == "Scrollable"@,
    }
}

/// The message of the error when the target never appeared.
pub open spec fn exhausted_message(max_scrolls: u32, delta: Seq<char>) -> Seq<char> {
    "scrollUntilVisible agotó "@ + decimal(max_scrolls as nat) + " scrolls (delta="@ + delta
        + ") sin encontrar el target. Puede que no exista, que el finder no matchee, o que 'scrollable' no sea el contenedor correcto -- confirmá con 'flutter_snapshot'."@
}

/// The action finishes with the error of a target that never appeared.
pub open spec fn finishes_exhausted(act: GestureAction, max_scrolls: u32, delta: Seq<char>) -> bool {
    act matches GestureAction::Finish(Err(ApplicationError::WidgetNotFound(m))) && m@ == exhausted_message(
        max_scrolls,
        delta,
    )
}

/// The action sends the check for the target of a scroll-until-visible.
pub open spec fn sends_check(act: GestureAction, target: Finder) -> bool {
    sends_timed(act, "waitFor"@, target, CHECK_TIMEOUT_MS)
}

/// The action sends the scroll of a scroll-until-visible: no horizontal offset, the
/// delta vertically, over 300 ms at 60 Hz, with the default timeout.
pub open spec fn sends_search_scroll(act: GestureAction, scrollable: Option<Finder>, delta: Seq<char>) -> bool {
    exists|f: Finder|
        #![trigger is_scroll_finder(f, scrollable)]
        is_scroll_finder(f, scrollable) && sends_scroll(
            act,
            f,
            "0"@,
            delta,
            decimal(300000),
            decimal(60),
            decimal(5000),
        )
}

/// The invariant of a dispatch: its phase belongs to its gesture, and a search has done
/// fewer scrolls than allowed.
pub open spec fn run_wf(run: GestureRun) -> bool {
    &&& gesture_wf(run.gesture)
    &&& match run.phase {
        GesturePhase::FinderCommand => !(run.gesture is ScrollUntilVisible),
        GesturePhase::TextEntry => run.gesture is EnterText || run.gesture is ClearText,
        GesturePhase::Checking(n) => run.gesture matches Gesture::ScrollUntilVisible { max_scrolls, .. }
            && n < max_scrolls,
        GesturePhase::Scrolling(n) => run.gesture matches Gesture::ScrollUntilVisible { max_scrolls, .. }
            && n < max_scrolls,
        GesturePhase::Done => true,
    }
}

/// The action sends the `scrollIntoView` command on a finder.
pub open spec fn sends_align(act: GestureAction, f: Finder, alignment: Seq<char>, timeout_ms: u64) -> bool {
    &&& act matches GestureAction::Send(c)
    &&& c.command@ == "scrollIntoView"@
    &&& c.params matches JsonValue::Object(fields)
    &&& is_align_fields(fields@, f, alignment, decimal(timeout_ms as nat))
}

/// The action finishes with `e`, hinted with the candidates' suggestions.
pub open spec fn finishes_hinted(act: GestureAction, e: ApplicationError, candidates: Seq<WidgetNode>) -> bool {
    &&& act matches GestureAction::Finish(Err(e2))
    &&& is_hinted(e2, e, nodes_view(candidates))
}

/// The first command of a gesture on its finder, with the timeout decided for it.
pub open spec fn sends_finder_command(act: GestureAction, g: Gesture, timeout_ms: u64) -> bool {
    match g {
        Gesture::Tap { finder, .. } => sends_timed(act, "tap"@, finder, timeout_ms),
        Gesture::EnterText { finder, .. } => sends_timed(act, "tap"@, finder, timeout_ms),
        Gesture::ClearText { finder, .. } => sends_timed(act, "tap"@, finder, timeout_ms),
        Gesture::Scroll { finder, dx, dy, duration_ms, frequency, .. } => sends_scroll(
            act,
            finder,
            dx@,
            dy@,
            decimal((duration_ms * 1000) as nat),
            decimal(frequency as nat),
            decimal(timeout_ms as nat),
        ),
        Gesture::ScrollIntoView { finder, alignment, .. } => sends_align(act, finder, alignment@, timeout_ms),
        Gesture::ScrollUntilVisible { .. } => false,
    }
}

/// How a dispatch starts: a search checks for its target first (or fails at once when
/// no scroll is allowed); every other gesture sends its finder's command.
pub open spec fn is_start(g: Gesture, timeout_ms: u64, candidates: Seq<WidgetNode>, run: GestureRun, act: GestureAction) -> bool {
    &&& run.gesture == g
    &&& run.timeout_ms == timeout_ms
    &&& run.candidates@ == candidates
    &&& match g {
        Gesture::ScrollUntilVisible { target, delta, max_scrolls, .. } => if max_scrolls == 0 {
            run.phase == GesturePhase::Done && finishes_exhausted(act, max_scrolls, delta@)
        } else {
            run.phase == GesturePhase::Checking(0) && sends_check(act, target)
        },
        _ => run.phase == GesturePhase::FinderCommand && sends_finder_command(act, g, timeout_ms),
    }
}

/// One step of a dispatch, given how the command that was out went.
pub open spec fn is_step(run: GestureRun, outcome: Result<(), ApplicationError>, next: GestureRun, act: GestureAction) -> bool {
    &&& next.gesture == run.gesture
    &&& next.timeout_ms == run.timeout_ms
    &&& next.candidates@ == run.candidates@
    &&& match run.phase {
        GesturePhase::FinderCommand => match outcome {
            Err(e) => next.phase == GesturePhase::Done && finishes_hinted(act, e, run.candidates@),
            Ok(_) => match run.gesture {
                Gesture::EnterText { text, .. } => next.phase == GesturePhase::TextEntry && sends_text(
                    act,
                    text@,
                ),
                Gesture::ClearText { .. } => next.phase == GesturePhase::TextEntry && sends_text(
                    act,
                    Seq::empty(),
                ),
                _ => next.phase == GesturePhase::Done && act == GestureAction::Finish(Ok(())),
            },
        },
        GesturePhase::TextEntry => next.phase == GesturePhase::Done && act == GestureAction::Finish(
            outcome,
        ),
        GesturePhase::Checking(n) => match run.gesture {
            Gesture::ScrollUntilVisible { scrollable, delta, .. } => match outcome {
                Ok(_) => next.phase == GesturePhase::Done && act == GestureAction::Finish(Ok(())),
                Err(_) => next.phase == GesturePhase::Scrolling(n) && sends_search_scroll(
                    act,
                    scrollable,
                    delta@,
                ),
            },
            _ => false,
        },
        GesturePhase::Scrolling(n) => match run.gesture {
            Gesture::ScrollUntilVisible { target, delta, max_scrolls, .. } => if n + 1 < max_scrolls {
                next.phase == GesturePhase::Checking((n + 1) as u32) && sends_check(act, target)
            } else {
                next.phase == GesturePhase::Done && finishes_exhausted(act, max_scrolls, delta@)
            },
            _ => false,
        },
        GesturePhase::Done => false,
    }
}

/// A search for a target scrolls at most `max_scrolls` times: the step after the last
/// allowed scroll finishes with the error of a target that never appeared, and a search in
/// progress has always done fewer scrolls than allowed.
pub proof fn law_search_is_bounded(run: GestureRun, outcome: Result<(), ApplicationError>, next: GestureRun, act: GestureAction)
    requires
        run_wf(run),
        is_step(run, outcome, next, act),
    ensures
        run.gesture matches Gesture::ScrollUntilVisible { max_scrolls, delta, .. } ==> {
            &&& (run.phase matches GesturePhase::Scrolling(n) && n + 1 == max_scrolls) ==> next.phase
                == GesturePhase::Done && finishes_exhausted(act, max_scrolls, delta@)
            &&& (next.phase matches GesturePhase::Checking(m) ==> m < max_scrolls)
            &&& (next.phase matches GesturePhase::Scrolling(m) ==> m < max_scrolls)
        },
{
}

/// A finder's command that fails ends the gesture with its error hinted with the similar
/// candidates, and a gesture only succeeds after the command that was out succeeded.
pub proof fn law_failure_is_reported(run: GestureRun, outcome: Result<(), ApplicationError>, next: GestureRun, act: GestureAction)
    requires
        run_wf(run),
        is_step(run, outcome, next, act),
    ensures
        act == GestureAction::Finish(Ok(())) ==> outcome is Ok,
        (run.phase == GesturePhase::FinderCommand && outcome is Err) ==> finishes_hinted(
            act,
            outcome->Err_0,
            run.candidates@,
        ),
{
}

// ---------------------------------------------------------------------------
// Commands
// ---------------------------------------------------------------------------

/// Command `name` on a finder, with a timeout.
fn timed_command(name: &str, finder: &Finder, timeout_ms: u64) -> (r: DriverCommand)
    ensures
        sends_timed(GestureAction::Send(r), name@, *finder, timeout_ms),
{
    DriverCommand { command: String::from_str(name), params: timed_finder_params(finder, timeout_ms) }
}

/// A `scroll` command on a finder.
fn scroll_command(finder: &Finder, dx: &str, dy: &str, duration_us: u64, frequency: u64, timeout_ms: u64) -> (r: DriverCommand)
    ensures
        sends_scroll(
            GestureAction::Send(r),
            *finder,
            dx@,
            dy@,
            decimal(duration_us as nat),
            decimal(frequency as nat),
            decimal(timeout_ms as nat),
        ),
{
    let mut fields = finder.to_driver_params();
    let ghost b0 = fields@;
    set_str(&mut fields, "dx", dx);
    set_str(&mut fields, "dy", dy);
    let d = decimal_string(duration_us);
    set_str(&mut fields, "duration", d.as_str());
    let fr = decimal_string(frequency);
    set_str(&mut fields, "frequency", fr.as_str());
    let t = decimal_string(timeout_ms);
    set_str(&mut fields, "timeout", t.as_str());
    assert(is_driver_params(*finder, b0));
    DriverCommand { command: String::from_str("scroll"), params: JsonValue::Object(fields) }
}

/// A `scrollIntoView` command on a finder.
fn align_command(finder: &Finder, alignment: &str, timeout_ms: u64) -> (r: DriverCommand)
    ensures
        sends_align(GestureAction::Send(r), *finder, alignment@, timeout_ms),
{
    let mut fields = finder.to_driver_params();
    let ghost b0 = fields@;
    set_str(&mut fields, "alignment", alignment);
    let t = decimal_string(timeout_ms);
    set_str(&mut fields, "timeout", t.as_str());
    assert(is_driver_params(*finder, b0));
    DriverCommand { command: String::from_str("scrollIntoView"), params: JsonValue::Object(fields) }
}

/// The `enter_text` command for `text`.
fn text_command(text: &str) -> (r: DriverCommand)
    ensures
        sends_text(GestureAction::Send(r), text@),
{
    let mut fields: Vec<(String, JsonValue)> = Vec::new();
    fields.push((String::from_str("text"), JsonValue::string(text)));
    fields.push((String::from_str("timeout"), JsonValue::string("5000")));
    DriverCommand { command: String::from_str("enter_text"), params: JsonValue::Object(fields) }
}

/// The error of a search whose target never appeared.
fn exhausted_error(max_scrolls: u32, delta: &str) -> (r: ApplicationError)
    ensures
        r matches ApplicationError::WidgetNotFound(m) && m@ == exhausted_message(max_scrolls, delta@),
{
    let mut out: Vec<char> = Vec::new();
    extend_str(&mut out, "scrollUntilVisible agotó ");
    let n = decimal_chars(max_scrolls as u64);
    extend_chars(&mut out, &n);
    extend_str(&mut out, " scrolls (delta=");
    extend_str(&mut out, delta);
    extend_str(
        &mut out,
        ") sin encontrar el target. Puede que no exista, que el finder no matchee, o que 'scrollable' no sea el contenedor correcto -- confirmá con 'flutter_snapshot'.",
    );
    ApplicationError::WidgetNotFound(from_chars(&out))
}

/// The scroll of a search: the given scrollable, or any `Scrollable`.
fn search_scroll(scrollable: &Option<Finder>, delta: &str) -> (r: DriverCommand)
    ensures
        sends_search_scroll(GestureAction::Send(r), *scrollable, delta@),
{
    match scrollable {
        Some(f) => {
            let r = scroll_command(f, "0", delta, 300000, 60, 5000);
            assert(is_scroll_finder(*f, *scrollable));
            r
        },
        None => {
            let f = Finder::by_type("Scrollable");
            let r = scroll_command(&f, "0", delta, 300000, 60, 5000);
            assert(is_scroll_finder(f, *scrollable));
            r
        },
    }
}

impl Gesture {
    /// The finder checked before the gesture's first command, with the explicit timeout
    /// given for it; none for a scroll-until-visible.
    pub fn precheck_finder(&self) -> (r: Option<(&Finder, Option<u64>)>)
        ensures
            match r {
                Some((f, t)) => spec_gesture_finder(*self) == Some((*f, t)),
                None => spec_gesture_finder(*self) is None,
            },
    {
        match self {
            Gesture::Tap { finder, timeout_ms } => Some((finder, *timeout_ms)),
            Gesture::EnterText { finder, timeout_ms, .. } => Some((finder, *timeout_ms)),
            Gesture::ClearText { finder, timeout_ms } => Some((finder, *timeout_ms)),
            Gesture::Scroll { finder, timeout_ms, .. } => Some((finder, *timeout_ms)),
            Gesture::ScrollIntoView { finder, timeout_ms, .. } => Some((finder, *timeout_ms)),
            Gesture::ScrollUntilVisible { .. } => None,
        }
    }
}

impl GestureRun {
    /// Starts dispatching a gesture whose finder's command gets `timeout_ms`, with the
    /// similar candidates the pre-check found.
    pub fn start(gesture: Gesture, timeout_ms: u64, candidates: Vec<WidgetNode>) -> (r: (GestureRun, GestureAction))
        requires
            gesture_wf(gesture),
        ensures
            is_start(gesture, timeout_ms, candidates@, r.0, r.1),
            run_wf(r.0),
    {
        let (phase, act) = match &gesture {
            Gesture::Tap { finder, .. } => (GesturePhase::FinderCommand, GestureAction::Send(timed_command("tap", finder, timeout_ms))),
            Gesture::EnterText { finder, .. } => (GesturePhase::FinderCommand, GestureAction::Send(timed_command("tap", finder, timeout_ms))),
            Gesture::ClearText { finder, .. } => (GesturePhase::FinderCommand, GestureAction::Send(timed_command("tap", finder, timeout_ms))),
            Gesture::Scroll { finder, dx, dy, duration_ms, frequency, .. } => (
                GesturePhase::FinderCommand,
                GestureAction::Send(scroll_command(finder, dx.as_str(), dy.as_str(), *duration_ms * 1000, *frequency as u64, timeout_ms)),
            ),
            Gesture::ScrollIntoView { finder, alignment, .. } => (
                GesturePhase::FinderCommand,
                GestureAction::Send(align_command(finder, alignment.as_str(), timeout_ms)),
            ),
            Gesture::ScrollUntilVisible { target, delta, max_scrolls, .. } => if *max_scrolls == 0 {
                (GesturePhase::Done, GestureAction::Finish(Err(exhausted_error(*max_scrolls, delta.as_str()))))
            } else {
                (GesturePhase::Checking(0), GestureAction::Send(timed_command("waitFor", target, CHECK_TIMEOUT_MS)))
            },
        };
        (GestureRun { gesture, timeout_ms, candidates, phase }, act)
    }

    /// Advances the dispatch with how the command that was out went.
    pub fn step(self, outcome: Result<(), ApplicationError>) -> (r: (GestureRun, GestureAction))
        requires
            run_wf(self),
            self.phase != GesturePhase::Done,
        ensures
            is_step(self, outcome, r.0, r.1),
            run_wf(r.0),
    {
        let GestureRun { gesture, timeout_ms, candidates, phase } = self;
        match phase {
            GesturePhase::FinderCommand => match outcome {
                Err(e) => {
                    let e2 = append_candidate_hint(e, &candidates);
                    (GestureRun { gesture, timeout_ms, candidates, phase: GesturePhase::Done }, GestureAction::Finish(Err(e2)))
                },
                Ok(()) => {
                    let next: Option<DriverCommand> = match &gesture {
                        Gesture::EnterText { text, .. } => Some(text_command(text.as_str())),
                        Gesture::ClearText { .. } => {
                            let c = text_command("");
                            proof {
                                reveal_strlit("");
                                assert(""@ =~= Seq::<char>::empty());
                            }
                            Some(c)
                        },
                        _ => None,
                    };
                    match next {
                        Some(c) => (GestureRun { gesture, timeout_ms, candidates, phase: GesturePhase::TextEntry }, GestureAction::Send(c)),
                        None => (GestureRun { gesture, timeout_ms, candidates, phase: GesturePhase::Done }, GestureAction::Finish(Ok(()))),
                    }
                },
            },
            GesturePhase::TextEntry => (GestureRun { gesture, timeout_ms, candidates, phase: GesturePhase::Done }, GestureAction::Finish(outcome)),
            GesturePhase::Checking(n) => match outcome {
                Ok(()) => (GestureRun { gesture, timeout_ms, candidates, phase: GesturePhase::Done }, GestureAction::Finish(Ok(()))),
                Err(_) => {
                    let c = match &gesture {
                        Gesture::ScrollUntilVisible { scrollable, delta, .. } => search_scroll(scrollable, delta.as_str()),
                        _ => {
                            assert(false);
                            text_command("")
                        },
                    };
                    (GestureRun { gesture, timeout_ms, candidates, phase: GesturePhase::Scrolling(n) }, GestureAction::Send(c))
                },
            },
            GesturePhase::Scrolling(n) => {
                let (next_phase, act) = match &gesture {
                    Gesture::ScrollUntilVisible { target, delta, max_scrolls, .. } => if n + 1 < *max_scrolls {
                        (GesturePhase::Checking(n + 1), GestureAction::Send(timed_command("waitFor", target, CHECK_TIMEOUT_MS)))
                    } else {
                        (GesturePhase::Done, GestureAction::Finish(Err(exhausted_error(*max_scrolls, delta.as_str()))))
                    },
                    _ => {
                        assert(false);
                        (GesturePhase::Done, GestureAction::Finish(Ok(())))
                    },
                };
                (GestureRun { gesture, timeout_ms, candidates, phase: next_phase }, act)
            },
            GesturePhase::Done => {
                assert(false);
                (GestureRun { gesture, timeout_ms, candidates, phase: GesturePhase::Done }, GestureAction::Finish(Ok(())))
            },
        }
    }
}

/// The commands that configure Flutter Driver's extension: frame sync off, so that perpetual
/// animations do not hold every command, then text entry emulation on, which typing into
/// an `EditableText` needs. Values are strings, as everywhere in the protocol.
pub open spec fn is_setup_commands(r: Seq<DriverCommand>) -> bool {
    &&& r.len() == 2
    &&& r[0].command@ == "set_frame_sync"@
    &&& r[0].params matches JsonValue::Object(f) && f@.len() == 1 && is_str_field(f@[0], "enabled"@, "false"@)
    &&& r[1].command@ == "set_text_entry_emulation"@
    &&& r[1].params matches JsonValue::Object(f) && f@.len() == 1 && is_str_field(f@[0], "enabled"@, "true"@)
}

/// The commands that configure Flutter Driver's extension.
pub fn extension_setup_commands() -> (r: Vec<DriverCommand>)
    ensures
        is_setup_commands(r@),
{
    let mut f0: Vec<(String, JsonValue)> = Vec::new();
    f0.push((String::from_str("enabled"), JsonValue::string("false")));
    let mut f1: Vec<(String, JsonValue)> = Vec::new();
    f1.push((String::from_str("enabled"), JsonValue::string("true")));
    let mut r: Vec<DriverCommand> = Vec::new();
    r.push(DriverCommand { command: String::from_str("set_frame_sync"), params: JsonValue::Object(f0) });
    r.push(DriverCommand { command: String::from_str("set_text_entry_emulation"), params: JsonValue::Object(f1) });
    r
}

/// Whether the running instance of Flutter Driver's extension has been configured. Each
/// Hot Restart runs `main()` again and recreates the extension with its defaults, so the
/// configuration is then sent again before the next command.
#[derive(Debug)]
pub struct ExtensionSetup {
    configured: bool,
}

impl View for ExtensionSetup {
    type V = bool;

    closed spec fn view(&self) -> bool {
        self.configured
    }
}

impl ExtensionSetup {
    /// Not configured yet.
    pub fn new() -> (r: Self)
        ensures
            !r@,
    {
        ExtensionSetup { configured: false }
    }

    /// The commands to send before the next driver command: the setup commands while the
    /// extension is not configured, none once it is.
    pub fn pending_commands(&self) -> (r: Vec<DriverCommand>)
        ensures
            self@ ==> r@.len() == 0,
            !self@ ==> is_setup_commands(r@),
    {
        if self.configured {
            Vec::new()
        } else {
            extension_setup_commands()
        }
    }

    /// Records that the setup commands succeeded.
    pub fn mark_configured(&mut self)
        ensures
            final(self)@,
    {
        self.configured = true;
    }

    /// Forgets the configuration, after a Hot Restart or when the connection ends.
    pub fn reset(&mut self)
        ensures
            !final(self)@,
    {
        self.configured = false;
    }
}

/// What the transport goes through over a connection, for the driver extension's setup.
pub enum SessionEvent {
    /// A driver command, named, sent after whatever setup the extension needs.
    Command(Seq<char>),
    /// A Hot Restart: the extension is created again with its defaults.
    Restart,
}

/// The names of the setup commands, in order.
pub open spec fn setup_names() -> Seq<Seq<char>> {
    seq!["set_frame_sync"@, "set_text_entry_emulation"@]
}

/// The names of the commands sent over a sequence of events, starting from a configured
/// or unconfigured extension, when every setup succeeds: `pending_commands` before each
/// command, `mark_configured` after the setup, `reset` on each restart.
pub open spec fn spec_sent(configured: bool, evs: Seq<SessionEvent>) -> Seq<Seq<char>>
    decreases evs.len(),
{
    if evs.len() == 0 {
        Seq::empty()
    } else {
        match evs[0] {
            SessionEvent::Command(c) => (if configured {
                Seq::empty()
            } else {
                setup_names()
            }) + seq![c] + spec_sent(true, evs.drop_first()),
            SessionEvent::Restart => spec_sent(false, evs.drop_first()),
        }
    }
}

/// The names of the commands among the events, in order.
pub open spec fn command_names(evs: Seq<SessionEvent>) -> Seq<Seq<char>>
    decreases evs.len(),
{
    if evs.len() == 0 {
        Seq::empty()
    } else {
        match evs[0] {
            SessionEvent::Command(c) => seq![c] + command_names(evs.drop_first()),
            SessionEvent::Restart => command_names(evs.drop_first()),
        }
    }
}

/// No restart among the events.
pub open spec fn no_restart(evs: Seq<SessionEvent>) -> bool {
    forall|i: int| 0 <= i < evs.len() ==> evs[i] is Command
}

/// The setup is sent once per instance of the extension: between restarts, a configured
/// extension gets only the commands, an unconfigured one gets the setup before its first
/// command and then only the commands, and a restart starts over unconfigured.
pub proof fn law_setup_once_per_instance(evs: Seq<SessionEvent>, configured: bool)
    ensures
        no_restart(evs) ==> spec_sent(true, evs) == command_names(evs),
        no_restart(evs) && evs.len() > 0 ==> spec_sent(false, evs) == setup_names() + command_names(evs),
        spec_sent(configured, seq![SessionEvent::Restart] + evs) == spec_sent(false, evs),
    decreases evs.len(),
{
    let r = seq![SessionEvent::Restart] + evs;
    assert(r.drop_first() == evs);
    if evs.len() > 0 {
        law_setup_once_per_instance(evs.drop_first(), configured);
        if no_restart(evs) {
            assert(no_restart(evs.drop_first())) by {
                assert forall|i: int| 0 <= i < evs.drop_first().len() implies evs.drop_first()[i] is Command by {
                    assert(evs.drop_first()[i] == evs[i + 1]);
                }
            }
            assert(evs[0] is Command);
            let c = evs[0]->Command_0;
            assert(spec_sent(true, evs) == seq![c] + spec_sent(true, evs.drop_first()));
            assert(command_names(evs) == seq![c] + command_names(evs.drop_first()));
            assert(spec_sent(false, evs) == setup_names() + seq![c] + spec_sent(true, evs.drop_first()));
            assert(setup_names() + seq![c] + command_names(evs.drop_first()) == setup_names() + (seq![c]
                + command_names(evs.drop_first())));
        }
    }
}

} // verus!
