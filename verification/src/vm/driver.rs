//! Flutter Driver commands over `ext.flutter.driver`: the failures it reports inside a
//! successful reply, the parameters of a command, and the timeout a finder's command
//! gets after a quick check of the current widget tree.

use vstd::prelude::*;
use crate::application::error::ApplicationError;
use crate::codec::{base64_decode, base64_standard_decode};
use crate::entities::{
    ErrorSource, FlutterError, FlutterErrorView, WidgetNode, WidgetNodeView, node_view, nodes_view,
    opt_view,
};
use crate::finder::{Finder, is_driver_params, is_str_field};
use crate::json::{JsonNumber, JsonValue, set_field, spec_as_str, spec_get, spec_get_str, spec_with_field};
use crate::services::finder_resolver::{
    FinderResolver, ResolveOutcome, cap, spec_any_match, spec_similar_nodes,
};
use crate::services::tree_pruner::{TreePruner, spec_prune};
use crate::text::{
    contains, contains_str, eq_ignore_ascii_case, eq_ignore_ascii_case_exec, extend_chars,
    extend_str, from_chars, join, join_chars, to_chars, views, decimal, decimal_chars, decimal_string,
    starts_with, str_eq, trim, trim_chars,
};

verus! {

broadcast use vstd::string::group_string_axioms;

/// Timeout of a finder's command when the pre-check found a match or does not apply.
pub const DEFAULT_GESTURE_TIMEOUT_MS: u64 = 5000;

/// Timeout of a finder's command when the pre-check found no match: the command is still
/// sent, but does not wait the whole default for a widget that is not there.
pub const FAST_FAIL_GESTURE_TIMEOUT_MS: u64 = 800;

/// Depth of the diagnostics tree fetched for the pre-check (the depth of a snapshot).
pub const PRECHECK_TREE_DEPTH: u32 = 50;

/// Guidance appended to a driver error that is Flutter Driver's own timeout.
pub const TIMEOUT_HINT: &'static str = " (el widget no se encontró dentro del timeout: usá 'flutter_snapshot' para confirmar que existe y qué finder le corresponde, y preferí 'by: \u{22}key\u{22}' sobre 'text'/'tooltip'/'semantics' cuando el widget lo tenga -- el hint text de un campo vacío u otros textos no siempre matchean con esos finders)";

/// Text that introduces the similar candidates appended to a driver error.
pub const CANDIDATES_HINT: &'static str = " Candidatos con texto/tooltip/semantics parecido encontrados en el árbol actual: ";

// ---------------------------------------------------------------------------
// Failures reported inside a successful reply
// ---------------------------------------------------------------------------

/// Flutter Driver reports its own failures (internal timeout, ambiguous finder) as a
/// successful JSON-RPC reply whose `isError` is `true`, as a JSON boolean or, like the
/// rest of its protocol, as a string.
pub open spec fn spec_driver_result_is_error(result: JsonValue) -> bool {
    match spec_get(result, "isError"@) {
        Some(JsonValue::Bool(b)) => b,
        Some(JsonValue::String(s)) => eq_ignore_ascii_case(s@, "true"@),
        _ => false,
    }
}

/// The human message of a failed command: its `response` field when it is a string,
/// else the raw JSON of the reply.
pub open spec fn driver_response_text(result: JsonValue, raw_json: Seq<char>) -> Seq<char> {
    match spec_get_str(result, "response"@) {
        Some(s) => s,
        None => raw_json,
    }
}

/// The message of the error raised for a failed command.
pub open spec fn spec_driver_error_message(command: Seq<char>, result: JsonValue, raw_json: Seq<char>) -> Seq<char> {
    let response = driver_response_text(result, raw_json);
    let base = "Flutter Driver reportó un error ejecutando '"@ + command + "': "@ + response;
    if contains(response, "TimeoutException"@) {
        base + TIMEOUT_HINT@
    } else {
        base
    }
}

/// Whether a reply of `ext.flutter.driver` reports a failure of the command.
pub fn driver_result_is_error(result: &JsonValue) -> (r: bool)
    ensures
        r == spec_driver_result_is_error(*result),
{
    match result.get("isError") {
        Some(JsonValue::Bool(b)) => *b,
        Some(JsonValue::String(s)) => {
            let a = to_chars(s.as_str());
            let t = to_chars("true");
            eq_ignore_ascii_case_exec(&a, &t)
        },
        _ => false,
    }
}

/// The message for a command whose reply reports a failure; `raw_json` is the reply as
/// JSON text.
pub fn driver_error_message(command: &str, result: &JsonValue, raw_json: &str) -> (r: String)
    ensures
        r@ == spec_driver_error_message(command@, *result, raw_json@),
{
    let response: &str = match result.get_str("response") {
        Some(s) => s,
        None => raw_json,
    };
    let mut out: Vec<char> = Vec::new();
    extend_str(&mut out, "Flutter Driver reportó un error ejecutando '");
    extend_str(&mut out, command);
    extend_str(&mut out, "': ");
    extend_str(&mut out, response);
    let rv = to_chars(response);
    if contains_str(&rv, "TimeoutException") {
        extend_str(&mut out, TIMEOUT_HINT);
    }
    from_chars(&out)
}

/// The error a failed command raises.
pub fn driver_failure(command: &str, result: &JsonValue, raw_json: &str) -> (r: ApplicationError)
    ensures
        r matches ApplicationError::DriverError(m) && m@ == spec_driver_error_message(
            command@,
            *result,
            raw_json@,
        ),
{
    ApplicationError::DriverError(driver_error_message(command, result, raw_json))
}

// ---------------------------------------------------------------------------
// Similar candidates appended to an error
// ---------------------------------------------------------------------------

/// What a candidate node is shown as: its text, else its tooltip, else its semantics
/// label.
pub open spec fn spec_suggestion(n: WidgetNodeView) -> Option<Seq<char>> {
    match n.text {
        Some(t) => Some(t),
        None => match n.tooltip {
            Some(t) => Some(t),
            None => n.semantics_label,
        },
    }
}

/// The suggestions of the candidates that have one, in order.
pub open spec fn spec_suggestions(s: Seq<WidgetNodeView>) -> Seq<Seq<char>>
    decreases s.len(),
{
    if s.len() == 0 {
        Seq::empty()
    } else {
        let rest = spec_suggestions(s.drop_last());
        match spec_suggestion(s.last()) {
            Some(x) => rest.push(x),
            None => rest,
        }
    }
}

/// `r` is `err` with the candidates' suggestions appended to its message: only a driver
/// error changes, and only when some candidate has a suggestion.
pub open spec fn is_hinted(r: ApplicationError, err: ApplicationError, candidates: Seq<WidgetNodeView>) -> bool {
    let sug = spec_suggestions(candidates);
    if sug.len() > 0 && err is DriverError {
        &&& err matches ApplicationError::DriverError(m)
        &&& r matches ApplicationError::DriverError(m2)
        &&& m2@ == m@ + CANDIDATES_HINT@ + join(sug, ", "@) + "."@
    } else {
        r == err
    }
}

/// Appends to a driver error the texts of the similar widgets the pre-check found.
pub fn append_candidate_hint(err: ApplicationError, candidates: &Vec<WidgetNode>) -> (r: ApplicationError)
    ensures
        is_hinted(r, err, nodes_view(candidates@)),
{
    let mut suggestions: Vec<Vec<char>> = Vec::new();
    let mut i: usize = 0;
    while i < candidates.len()
        invariant
            i <= candidates.len(),
            views(suggestions@) == spec_suggestions(nodes_view(candidates@.take(i as int))),
        decreases candidates.len() - i,
    {
        let c = &candidates[i];
        let ghost before = suggestions@;
        let picked: Option<&String> = match &c.text {
            Some(t) => Some(t),
            None => match &c.tooltip {
                Some(t) => Some(t),
                None => match &c.semantics_label {
                    Some(t) => Some(t),
                    None => None,
                },
            },
        };
        match picked {
            Some(t) => {
                suggestions.push(to_chars(t.as_str()));
                assert(views(suggestions@) == views(before).push(t@));
            },
            None => {},
        }
        proof {
            let t = candidates@.take(i + 1);
            assert(t.drop_last() == candidates@.take(i as int));
            assert(t.last() == candidates@[i as int]);
            let nv = nodes_view(t);
            assert(nv.drop_last() == nodes_view(candidates@.take(i as int)));
            assert(nv.last() == node_view(candidates@[i as int]));
        }
        i = i + 1;
    }
    assert(candidates@.take(candidates.len() as int) == candidates@);
    if suggestions.len() == 0 {
        return err;
    }
    match err {
        ApplicationError::DriverError(msg) => {
            let sep = to_chars(", ");
            let joined = join_chars(&suggestions, &sep);
            let mut out = to_chars(msg.as_str());
            extend_str(&mut out, CANDIDATES_HINT);
            extend_chars(&mut out, &joined);
            extend_str(&mut out, ".");
            ApplicationError::DriverError(from_chars(&out))
        },
        other => other,
    }
}

// ---------------------------------------------------------------------------
// Command parameters
// ---------------------------------------------------------------------------

/// The fields of `entries` after setting `command` and then `isolateId`.
pub open spec fn is_command_fields(
    fields: Seq<(String, JsonValue)>,
    entries: Seq<(String, JsonValue)>,
    command: Seq<char>,
    isolate_id: Seq<char>,
) -> bool {
    exists|mid: Seq<(String, JsonValue)>|
        #![trigger is_set_str(mid, entries, "command"@, command)]
        is_set_str(mid, entries, "command"@, command) && is_set_str(fields, mid, "isolateId"@, isolate_id)
}

/// The parameters of an `ext.flutter.driver` call: an object's fields with `command` and
/// `isolateId` set; any other value is sent unchanged.
pub fn command_params(params: JsonValue, command: &str, isolate_id: &str) -> (r: JsonValue)
    ensures
        match params {
            JsonValue::Object(entries) => r matches JsonValue::Object(fields) && is_command_fields(
                fields@,
                entries@,
                command@,
                isolate_id@,
            ),
            _ => r == params,
        },
{
    match params {
        JsonValue::Object(entries) => {
            let mut fields = entries;
            set_str(&mut fields, "command", command);
            set_str(&mut fields, "isolateId", isolate_id);
            JsonValue::Object(fields)
        },
        other => other,
    }
}

// ---------------------------------------------------------------------------
// The timeout of a finder's command
// ---------------------------------------------------------------------------

/// Text, tooltip and semantics finders depend on matching a string of the tree; the
/// others resolve at once.
pub open spec fn is_slow(f: Finder) -> bool {
    f is Text || f is Tooltip || f is SemanticsLabel
}

/// A borrowed optional value, taken by value.
pub open spec fn opt_deref(o: Option<&JsonValue>) -> Option<JsonValue> {
    match o {
        Some(t) => Some(*t),
        None => None,
    }
}

/// Timeout and similar candidates from the pre-check of a finder against the tree fetched
/// for it (`None` when the tree could not be fetched). Only a slow finder, checked against
/// a tree with something visible in which nothing matches, gets the short timeout.
pub open spec fn spec_precheck(f: Finder, tree: Option<JsonValue>) -> (u64, Seq<WidgetNodeView>) {
    let none = Seq::<WidgetNodeView>::empty();
    if !is_slow(f) {
        (DEFAULT_GESTURE_TIMEOUT_MS, none)
    } else {
        match tree {
            None => (DEFAULT_GESTURE_TIMEOUT_MS, none),
            Some(t) => match spec_prune(t) {
                None => (DEFAULT_GESTURE_TIMEOUT_MS, none),
                Some(root) => if spec_any_match(root, f) {
                    (DEFAULT_GESTURE_TIMEOUT_MS, none)
                } else {
                    (FAST_FAIL_GESTURE_TIMEOUT_MS, cap(spec_similar_nodes(root, f)))
                },
            },
        }
    }
}

/// An explicit timeout is used as given and skips the pre-check; otherwise the pre-check
/// decides.
pub open spec fn spec_command_timeout(timeout_override: Option<u64>, f: Finder, tree: Option<JsonValue>) -> (u64, Seq<WidgetNodeView>) {
    match timeout_override {
        Some(t) => (t, Seq::empty()),
        None => spec_precheck(f, tree),
    }
}

/// Whether the diagnostics tree must be fetched before the command: only for a slow
/// finder without an explicit timeout.
pub open spec fn spec_needs_precheck_tree(timeout_override: Option<u64>, f: Finder) -> bool {
    timeout_override is None && is_slow(f)
}

/// Whether the diagnostics tree must be fetched to decide the command's timeout.
pub fn needs_precheck_tree(timeout_override: Option<u64>, finder: &Finder) -> (r: bool)
    ensures
        r == spec_needs_precheck_tree(timeout_override, *finder),
{
    timeout_override.is_none() && FinderResolver::is_slow_finder(finder)
}

/// The timeout of a finder's command and, when it is the short one, the similar
/// widgets found; `tree` is the diagnostics tree fetched for the pre-check, if it could be.
pub fn command_timeout(timeout_override: Option<u64>, finder: &Finder, tree: Option<&JsonValue>) -> (r: (u64, Vec<WidgetNode>))
    ensures
        r.0 == spec_command_timeout(timeout_override, *finder, opt_deref(tree)).0,
        nodes_view(r.1@) == spec_command_timeout(timeout_override, *finder, opt_deref(tree)).1,
{
    let none: Vec<WidgetNode> = Vec::new();
    assert(nodes_view(none@) == Seq::<WidgetNodeView>::empty());
    if let Some(t) = timeout_override {
        return (t, none);
    }
    if !FinderResolver::is_slow_finder(finder) {
        return (DEFAULT_GESTURE_TIMEOUT_MS, none);
    }
    let raw = match tree {
        Some(t) => t,
        None => return (DEFAULT_GESTURE_TIMEOUT_MS, none),
    };
    let root = match TreePruner::prune_diagnostics_tree(raw) {
        Some(n) => n,
        None => return (DEFAULT_GESTURE_TIMEOUT_MS, none),
    };
    match FinderResolver::quick_resolve(&root, finder) {
        ResolveOutcome::Matched => (DEFAULT_GESTURE_TIMEOUT_MS, none),
        ResolveOutcome::NotFound { candidates } => (FAST_FAIL_GESTURE_TIMEOUT_MS, candidates),
    }
}

/// A slow finder checked against a fetched tree that keeps something visible, in which
/// no node matches.
pub open spec fn finds_no_match(f: Finder, tree: Option<JsonValue>) -> bool {
    &&& is_slow(f)
    &&& tree matches Some(j)
    &&& spec_prune(j) matches Some(root)
    &&& !spec_any_match(root, f)
}

/// An explicit timeout is sent as given, with no tree fetched and no candidates.
pub proof fn law_explicit_timeout_skips_precheck(t: u64, f: Finder, tree: Option<JsonValue>)
    ensures
        !spec_needs_precheck_tree(Some(t), f),
        spec_command_timeout(Some(t), f, tree) == (t, Seq::<WidgetNodeView>::empty()),
{
}

/// Without an explicit timeout a command waits the default or the short timeout; the short
/// one only for a slow finder checked against a fetched tree in which nothing matches,
/// and only then are candidates reported.
pub proof fn law_fast_fail_only_without_match(f: Finder, tree: Option<JsonValue>)
    ensures
        ({
            let (t, c) = spec_command_timeout(None, f, tree);
            &&& t == DEFAULT_GESTURE_TIMEOUT_MS || t == FAST_FAIL_GESTURE_TIMEOUT_MS
            &&& t == FAST_FAIL_GESTURE_TIMEOUT_MS <==> finds_no_match(f, tree)
            &&& t == DEFAULT_GESTURE_TIMEOUT_MS ==> c.len() == 0
        }),
{
}

/// `after` is `before` with field `key` set to the string `val` (see `spec_with_field`).
pub open spec fn is_set_str(
    after: Seq<(String, JsonValue)>,
    before: Seq<(String, JsonValue)>,
    key: Seq<char>,
    val: Seq<char>,
) -> bool {
    exists|k: String, v: String|
        #![trigger spec_with_field(before, k, JsonValue::String(v))]
        k@ == key && v@ == val && after == spec_with_field(before, k, JsonValue::String(v))
}

/// Sets field `key` of an object's fields to the string `val`.
pub fn set_str(fields: &mut Vec<(String, JsonValue)>, key: &str, val: &str)
    ensures
        is_set_str(final(fields)@, old(fields)@, key@, val@),
{
    let v = String::from_str(val);
    let ghost g = v;
    set_field(fields, key, JsonValue::String(v));
    proof {
        let k = choose|k: String| k@ == key@ && fields@ == spec_with_field(old(fields)@, k, JsonValue::String(g));
        assert(spec_with_field(old(fields)@, k, JsonValue::String(g)) == fields@);
    }
}

/// A finder's driver parameters with `timeout` set to `timeout_ms` in decimal.
pub open spec fn is_timed_fields(fields: Seq<(String, JsonValue)>, f: Finder, timeout_ms: u64) -> bool {
    exists|base: Seq<(String, JsonValue)>|
        #![trigger is_driver_params(f, base)]
        is_driver_params(f, base) && is_set_str(fields, base, "timeout"@, decimal(timeout_ms as nat))
}

/// A finder's parameters with a `timeout` field holding `timeout_ms` in decimal, the form
/// Flutter Driver expects.
pub fn timed_finder_params(finder: &Finder, timeout_ms: u64) -> (r: JsonValue)
    ensures
        r matches JsonValue::Object(fields) && is_timed_fields(fields@, *finder, timeout_ms),
{
    let mut fields = finder.to_driver_params();
    let ghost base = fields@;
    let v = decimal_string(timeout_ms);
    set_str(&mut fields, "timeout", v.as_str());
    assert(is_driver_params(*finder, base));
    JsonValue::Object(fields)
}

// ---------------------------------------------------------------------------
// Replies
// ---------------------------------------------------------------------------

/// The value found by a lookup, or else the one found by a fallback lookup.
pub open spec fn or_else(a: Option<JsonValue>, b: Option<JsonValue>) -> Option<JsonValue> {
    match a {
        Some(v) => Some(v),
        None => b,
    }
}

/// Field `key` of field `outer` of a value.
pub open spec fn spec_get_in(v: JsonValue, outer: Seq<char>, key: Seq<char>) -> Option<JsonValue> {
    match spec_get(v, outer) {
        Some(o) => spec_get(o, key),
        None => None,
    }
}

/// The text a `get_text` reply carries: `response.text`, else the top-level `text`, if
/// the value found is a string.
pub open spec fn spec_reply_text(result: JsonValue) -> Option<Seq<char>> {
    match or_else(spec_get_in(result, "response"@, "text"@), spec_get(result, "text"@)) {
        Some(v) => spec_as_str(v),
        None => None,
    }
}

/// The Base64 payload of a `screenshot` reply: `response.data`, else `data` (or its own
/// `data` field when it is an object), else `screenshot`, if the value found is a string.
pub open spec fn spec_screenshot_payload(result: JsonValue) -> Option<Seq<char>> {
    let data = match spec_get(result, "data"@) {
        Some(d) => if d is Object {
            spec_get(d, "data"@)
        } else {
            Some(d)
        },
        None => None,
    };
    match or_else(
        or_else(spec_get_in(result, "response"@, "data"@), data),
        spec_get(result, "screenshot"@),
    ) {
        Some(v) => spec_as_str(v),
        None => None,
    }
}

/// The first value of `a`, else of `b`.
fn first_of<'a>(a: Option<&'a JsonValue>, b: Option<&'a JsonValue>) -> (r: Option<&'a JsonValue>)
    ensures
        opt_deref(r) == or_else(opt_deref(a), opt_deref(b)),
{
    match a {
        Some(v) => Some(v),
        None => b,
    }
}

/// Field `key` of field `outer` of a value.
fn get_in<'a>(v: &'a JsonValue, outer: &str, key: &str) -> (r: Option<&'a JsonValue>)
    ensures
        opt_deref(r) == spec_get_in(*v, outer@, key@),
{
    match v.get(outer) {
        Some(o) => o.get(key),
        None => None,
    }
}

/// The text of a widget from a `get_text` reply; `raw_repr` is how the reply is shown in
/// the error when it carries no text.
pub fn reply_text(result: &JsonValue, raw_repr: &str) -> (r: Result<String, ApplicationError>)
    ensures
        match spec_reply_text(*result) {
            Some(t) => r matches Ok(s) && s@ == t,
            None => r matches Err(ApplicationError::DriverError(m)) && m@
                == "No se pudo extraer texto del widget. Respuesta: "@ + raw_repr@,
        },
{
    let found = first_of(get_in(result, "response", "text"), result.get("text"));
    let text = match found {
        Some(v) => v.as_str(),
        None => None,
    };
    match text {
        Some(t) => Ok(String::from_str(t)),
        None => {
            let mut out: Vec<char> = Vec::new();
            extend_str(&mut out, "No se pudo extraer texto del widget. Respuesta: ");
            extend_str(&mut out, raw_repr);
            Err(ApplicationError::DriverError(from_chars(&out)))
        },
    }
}

/// The Base64 payload of a `screenshot` reply (see `spec_screenshot_payload`).
pub fn screenshot_payload(result: &JsonValue) -> (r: Option<&str>)
    ensures
        match r {
            Some(p) => spec_screenshot_payload(*result) == Some(p@),
            None => spec_screenshot_payload(*result) is None,
        },
{
    let data: Option<&JsonValue> = match result.get("data") {
        Some(d) => match d {
            JsonValue::Object(_) => d.get("data"),
            _ => Some(d),
        },
        None => None,
    };
    let found = first_of(first_of(get_in(result, "response", "data"), data), result.get("screenshot"));
    match found {
        Some(v) => v.as_str(),
        None => None,
    }
}

/// The prefix of the error raised when a screenshot's Base64 does not decode.
pub open spec fn screenshot_decode_prefix() -> Seq<char> {
    "Error decodificando screenshot Base64: "@
}

/// The image bytes of a `screenshot` reply: its Base64 payload, without surrounding
/// whitespace, decoded with the standard alphabet; `raw_repr` is how the reply is shown
/// in the error when it carries no payload.
pub fn decode_screenshot(result: &JsonValue, raw_repr: &str) -> (r: Result<Vec<u8>, ApplicationError>)
    ensures
        match spec_screenshot_payload(*result) {
            Some(p) => match base64_standard_decode(trim(p)) {
                Ok(bytes) => r matches Ok(b) && b@ == bytes,
                Err(detail) => r matches Err(ApplicationError::DriverError(m)) && m@
                    == screenshot_decode_prefix() + detail,
            },
            None => r matches Err(ApplicationError::DriverError(m)) && m@
                == "No se recibió captura en respuesta. Respuesta: "@ + raw_repr@,
        },
{
    match screenshot_payload(result) {
        Some(p) => {
            let pv = to_chars(p);
            let trimmed = from_chars(&trim_chars(&pv));
            match base64_decode(trimmed.as_str()) {
                Ok(bytes) => Ok(bytes),
                Err(detail) => {
                    let mut out: Vec<char> = Vec::new();
                    extend_str(&mut out, "Error decodificando screenshot Base64: ");
                    extend_str(&mut out, detail.as_str());
                    proof {
                        reveal_strlit("Error decodificando screenshot Base64: ");
                    }
                    Err(ApplicationError::DriverError(from_chars(&out)))
                },
            }
        },
        None => {
            let mut out: Vec<char> = Vec::new();
            extend_str(&mut out, "No se recibió captura en respuesta. Respuesta: ");
            extend_str(&mut out, raw_repr);
            Err(ApplicationError::DriverError(from_chars(&out)))
        },
    }
}

/// The id of the first isolate of a `getVM` reply, when it is a string.
pub open spec fn spec_first_isolate_id(vm_info: JsonValue) -> Option<Seq<char>> {
    match spec_get(vm_info, "isolates"@) {
        Some(JsonValue::Array(isolates)) => if isolates@.len() > 0 {
            spec_get_str(isolates@[0], "id"@)
        } else {
            None
        },
        _ => None,
    }
}

/// The id of the first isolate listed in a `getVM` reply.
pub fn first_isolate_id(vm_info: &JsonValue) -> (r: Option<String>)
    ensures
        opt_view(r) == spec_first_isolate_id(*vm_info),
{
    match vm_info.get("isolates") {
        Some(JsonValue::Array(isolates)) => if isolates.len() > 0 {
            match isolates[0].get_str("id") {
                Some(id) => Some(String::from_str(id)),
                None => None,
            }
        } else {
            None
        },
        _ => None,
    }
}

/// The isolate used when none was discovered.
pub open spec fn default_isolate_id() -> Seq<char> {
    "isolates/main"@
}

/// The main isolate's id, or `isolates/main` when none was discovered.
pub fn isolate_id_or_default(id: &Option<String>) -> (r: String)
    ensures
        r@ == match *id {
            Some(s) => s@,
            None => default_isolate_id(),
        },
{
    match id {
        Some(s) => s.clone(),
        None => String::from_str("isolates/main"),
    }
}

/// The events of a `getVMTimeline` reply: its `traceEvents` array, or none.
pub fn trace_events(result: JsonValue) -> (r: Vec<JsonValue>)
    ensures
        r@ == match spec_get(result, "traceEvents"@) {
            Some(JsonValue::Array(a)) => a@,
            _ => Seq::<JsonValue>::empty(),
        },
{
    match result {
        JsonValue::Object(mut entries) => {
            let ghost e0 = entries@;
            match JsonValue::key_index(&entries, "traceEvents") {
                Some(i) => {
                    let (_, v) = entries.remove(i);
                    assert(v == e0[i as int].1);
                    match v {
                        JsonValue::Array(a) => a,
                        _ => Vec::new(),
                    }
                },
                None => Vec::new(),
            }
        },
        _ => Vec::new(),
    }
}

/// Where a stack frame of a `getStack` reply is: its `code.name`, or a placeholder.
pub open spec fn spec_frame_location(frame: JsonValue) -> Seq<char> {
    match spec_get_in(frame, "code"@, "name"@) {
        Some(v) => match spec_as_str(v) {
            Some(s) => s,
            None => "<desconocido>"@,
        },
        None => "<desconocido>"@,
    }
}

/// The line shown for the `i`-th frame of a stack.
pub open spec fn spec_frame_line(i: nat, frame: JsonValue) -> Seq<char> {
    "#"@ + decimal(i) + "      "@ + spec_frame_location(frame)
}

/// The stack trace of a `getStack` reply: one line per frame, or `None` when it has no
/// frames array or the array is empty.
pub open spec fn spec_stack_trace(result: JsonValue) -> Option<Seq<char>> {
    match spec_get(result, "frames"@) {
        Some(JsonValue::Array(frames)) => if frames@.len() == 0 {
            None
        } else {
            Some(join(Seq::new(frames@.len(), |i: int| spec_frame_line(i as nat, frames@[i])), "\n"@))
        },
        _ => None,
    }
}

/// The stack trace shown for a `getStack` reply (see `spec_stack_trace`).
pub fn stack_trace(result: &JsonValue) -> (r: Option<String>)
    ensures
        opt_view(r) == spec_stack_trace(*result),
{
    let frames = match result.get("frames") {
        Some(JsonValue::Array(f)) => f,
        _ => return None,
    };
    if frames.len() == 0 {
        return None;
    }
    let mut lines: Vec<Vec<char>> = Vec::new();
    let mut i: usize = 0;
    while i < frames.len()
        invariant
            i <= frames.len(),
            views(lines@) == Seq::new(i as nat, |k: int| spec_frame_line(k as nat, frames@[k])),
        decreases frames.len() - i,
    {
        let ghost before = lines@;
        let mut line: Vec<char> = Vec::new();
        extend_str(&mut line, "#");
        let d = decimal_chars(i as u64);
        extend_chars(&mut line, &d);
        extend_str(&mut line, "      ");
        let loc: &str = match get_in(&frames[i], "code", "name") {
            Some(v) => match v.as_str() {
                Some(s) => s,
                None => "<desconocido>",
            },
            None => "<desconocido>",
        };
        extend_str(&mut line, loc);
        assert(line@ == spec_frame_line(i as nat, frames@[i as int]));
        lines.push(line);
        assert(views(lines@) == views(before).push(lines@[i as int]@));
        assert(views(lines@) == Seq::new((i + 1) as nat, |k: int| spec_frame_line(k as nat, frames@[k])));
        i = i + 1;
    }
    let nl = to_chars("\n");
    Some(from_chars(&join_chars(&lines, &nl)))
}

/// The text of an `invoke` of `toString`: its `valueAsString`, when a string.
pub fn invoked_string(result: &JsonValue) -> (r: Option<String>)
    ensures
        opt_view(r) == spec_get_str(*result, "valueAsString"@),
{
    match result.get_str("valueAsString") {
        Some(s) => Some(String::from_str(s)),
        None => None,
    }
}

/// The object id of the exception of a `PauseException` event.
pub open spec fn spec_pause_exception_id(event: JsonValue) -> Option<Seq<char>> {
    match spec_get_in(event, "exception"@, "id"@) {
        Some(v) => spec_as_str(v),
        None => None,
    }
}

/// The object id of the exception that paused the isolate, if the event names one.
pub fn pause_exception_id(event: &JsonValue) -> (r: Option<String>)
    ensures
        opt_view(r) == spec_pause_exception_id(*event),
{
    match get_in(event, "exception", "id") {
        Some(v) => match v.as_str() {
            Some(s) => Some(String::from_str(s)),
            None => None,
        },
        None => None,
    }
}

/// The message of an exception caught by pausing: the text its `toString` gave, or a
/// placeholder saying why there is none.
pub open spec fn spec_pause_message(exception_id: Option<Seq<char>>, resolved: Option<Seq<char>>) -> Seq<char> {
    match exception_id {
        Some(_) => match resolved {
            Some(m) => m,
            None => "Excepción no capturada (no se pudo resolver el mensaje)"@,
        },
        None => "Excepción no capturada (sin referencia de objeto)"@,
    }
}

/// The error recorded for a `PauseException` event at `timestamp_ms`, from the message
/// and the stack trace that could be resolved while the isolate was paused.
pub fn pause_exception_error(
    timestamp_ms: i64,
    exception_id: &Option<String>,
    resolved_message: Option<String>,
    stack: Option<String>,
) -> (r: FlutterError)
    ensures
        r@ == (FlutterErrorView {
            timestamp_ms,
            message: spec_pause_message(opt_view(*exception_id), opt_view(resolved_message)),
            stack_trace: opt_view(stack),
            source: ErrorSource::ExceptionPause,
            occurrences: 1,
        }),
{
    let message = match exception_id {
        Some(_) => match resolved_message {
            Some(m) => m,
            None => String::from_str("Excepción no capturada (no se pudo resolver el mensaje)"),
        },
        None => String::from_str("Excepción no capturada (sin referencia de objeto)"),
    };
    FlutterError { timestamp_ms, message, stack_trace: stack, source: ErrorSource::ExceptionPause, occurrences: 1 }
}

// ---------------------------------------------------------------------------
// JSON-RPC messages
// ---------------------------------------------------------------------------

/// A message received from the VM Service.
#[derive(Debug, PartialEq)]
pub enum Incoming {
    /// The reply to the request with this id.
    Reply(String),
    /// A notification of a stream the connection listens to.
    StreamNotify,
    /// Anything else.
    Other,
}

/// A reply is recognised by its string `id`; a notification by its `method`.
pub fn classify_message(parsed: &JsonValue) -> (r: Incoming)
    ensures
        match spec_get_str(*parsed, "id"@) {
            Some(id) => r matches Incoming::Reply(s) && s@ == id,
            None => if spec_get_str(*parsed, "method"@) == Some("streamNotify"@) {
                r == Incoming::StreamNotify
            } else {
                r == Incoming::Other
            },
        },
{
    match parsed.get_str("id") {
        Some(id) => Incoming::Reply(String::from_str(id)),
        None => match parsed.get_str("method") {
            Some(m) => if str_eq(m, "streamNotify") {
                Incoming::StreamNotify
            } else {
                Incoming::Other
            },
            None => Incoming::Other,
        },
    }
}

/// How a request went, from its reply.
#[derive(Debug, PartialEq)]
pub enum RpcReply {
    /// The reply carries an `error`.
    Failed,
    /// The reply's `result` (`null` when absent).
    Succeeded(JsonValue),
}

/// The outcome of a request from its reply: failed when it has an `error`, else its
/// `result`.
pub fn reply_result(parsed: JsonValue) -> (r: RpcReply)
    ensures
        match spec_get(parsed, "error"@) {
            Some(_) => r == RpcReply::Failed,
            None => r == RpcReply::Succeeded(
                match spec_get(parsed, "result"@) {
                    Some(v) => v,
                    None => JsonValue::Null,
                },
            ),
        },
{
    if parsed.get("error").is_some() {
        return RpcReply::Failed;
    }
    match parsed {
        JsonValue::Object(mut entries) => {
            let ghost e0 = entries@;
            match JsonValue::key_index(&entries, "result") {
                Some(i) => {
                    let (_, v) = entries.remove(i);
                    assert(v == e0[i as int].1);
                    RpcReply::Succeeded(v)
                },
                None => RpcReply::Succeeded(JsonValue::Null),
            }
        },
        _ => RpcReply::Succeeded(JsonValue::Null),
    }
}

/// A JSON-RPC 2.0 request: `jsonrpc`, `id` (the counter in decimal), `method`, `params`.
pub fn rpc_request(id: u64, method: &str, params: JsonValue) -> (r: JsonValue)
    ensures
        r matches JsonValue::Object(f) && f@.len() == 4 && is_str_field(f@[0], "jsonrpc"@, "2.0"@)
            && is_str_field(f@[1], "id"@, decimal(id as nat)) && is_str_field(f@[2], "method"@, method@)
            && f@[3].0@ == "params"@ && f@[3].1 == params,
{
    let mut f: Vec<(String, JsonValue)> = Vec::new();
    f.push((String::from_str("jsonrpc"), JsonValue::string("2.0")));
    let id_text = decimal_string(id);
    f.push((String::from_str("id"), JsonValue::string(id_text.as_str())));
    f.push((String::from_str("method"), JsonValue::string(method)));
    f.push((String::from_str("params"), params));
    JsonValue::Object(f)
}

/// The exception pause mode that turns precise error capture on or off.
pub fn exception_pause_mode(enabled: bool) -> (r: &'static str)
    ensures
        r@ == (if enabled { "Unhandled"@ } else { "None"@ }),
{
    if enabled {
        "Unhandled"
    } else {
        "None"
    }
}

/// Object group of the inspector trees this server asks for.
pub const INSPECTOR_GROUP: &'static str = "flutter-native-mcp";

/// Parameters of `ext.flutter.inspector.getRootWidgetTree`: the summary tree with a text
/// preview of each node, in one call.
pub fn widget_tree_params(isolate_id: &str) -> (r: JsonValue)
    ensures
        r matches JsonValue::Object(f) && f@.len() == 4 && is_str_field(f@[0], "isolateId"@, isolate_id@)
            && is_str_field(f@[1], "groupName"@, INSPECTOR_GROUP@) && f@[2].0@ == "isSummaryTree"@
            && f@[2].1 == JsonValue::Bool(true) && f@[3].0@ == "withPreviews"@ && f@[3].1 == JsonValue::Bool(true),
{
    let mut f: Vec<(String, JsonValue)> = Vec::new();
    f.push((String::from_str("isolateId"), JsonValue::string(isolate_id)));
    f.push((String::from_str("groupName"), JsonValue::string(INSPECTOR_GROUP)));
    f.push((String::from_str("isSummaryTree"), JsonValue::Bool(true)));
    f.push((String::from_str("withPreviews"), JsonValue::Bool(true)));
    JsonValue::Object(f)
}

/// Parameters of `ext.flutter.inspector.getRootWidgetSummaryTree`, the older call used
/// when the app's SDK lacks the newer one.
pub fn legacy_tree_params(isolate_id: &str, subtree_depth: u32) -> (r: JsonValue)
    ensures
        r matches JsonValue::Object(f) && f@.len() == 3 && is_str_field(f@[0], "isolateId"@, isolate_id@)
            && is_str_field(f@[1], "objectGroup"@, INSPECTOR_GROUP@) && f@[2].0@ == "subtreeDepth"@
            && f@[2].1 == JsonValue::Number(JsonNumber::PosInt(subtree_depth as u64)),
{
    let mut f: Vec<(String, JsonValue)> = Vec::new();
    f.push((String::from_str("isolateId"), JsonValue::string(isolate_id)));
    f.push((String::from_str("objectGroup"), JsonValue::string(INSPECTOR_GROUP)));
    f.push((String::from_str("subtreeDepth"), JsonValue::Number(JsonNumber::PosInt(subtree_depth as u64))));
    JsonValue::Object(f)
}

} // verus!
