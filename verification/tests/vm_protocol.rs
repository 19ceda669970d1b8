//! The Flutter Driver protocol decisions of a dispatch, played against an in-memory VM
//! Service: pre-check timeout, gesture commands, failures reported inside replies.

use flutter_mcp::application::error::ApplicationError;
use flutter_mcp::finder::Finder;
use flutter_mcp::json::JsonValue;
use flutter_mcp::vm::driver::{
    command_timeout, driver_failure, driver_result_is_error, needs_precheck_tree,
    timed_finder_params, DEFAULT_GESTURE_TIMEOUT_MS,
};
use flutter_mcp::vm::gesture::{ExtensionSetup, Gesture, GestureAction, GestureRun};

fn s(v: &str) -> JsonValue {
    JsonValue::String(v.to_string())
}

fn obj(fields: Vec<(&str, JsonValue)>) -> JsonValue {
    JsonValue::Object(fields.into_iter().map(|(k, v)| (k.to_string(), v)).collect())
}

fn field<'a>(v: &'a JsonValue, key: &str) -> Option<&'a str> {
    match v {
        JsonValue::Object(fields) => fields.iter().find(|(k, _)| k == key).and_then(|(_, v)| v.as_str()),
        _ => None,
    }
}

fn tree_with_text(text: &str) -> JsonValue {
    obj(vec![
        ("description", s("Scaffold")),
        ("children", JsonValue::Array(vec![obj(vec![("description", s("Text")), ("textPreview", s(text))])])),
    ])
}

fn ok_driver_result() -> JsonValue {
    obj(vec![("isError", JsonValue::Bool(false)), ("response", obj(vec![]))])
}

/// What a dispatch sent, how many trees it fetched, and how it ended.
struct Dispatch {
    commands: Vec<(String, JsonValue)>,
    tree_fetches: usize,
    result: Result<(), ApplicationError>,
}

/// Dispatches a gesture the way the transport does, against a VM Service whose inspector
/// tree is `tree` and whose driver replies are given by `reply`.
fn dispatch(gesture: Gesture, tree: JsonValue, reply: impl Fn(&str) -> JsonValue) -> Dispatch {
    let mut tree_fetches = 0;
    let (timeout_ms, candidates) = match gesture.precheck_finder() {
        Some((finder, timeout_override)) => {
            let fetched = if needs_precheck_tree(timeout_override, finder) {
                tree_fetches += 1;
                Some(&tree)
            } else {
                None
            };
            command_timeout(timeout_override, finder, fetched)
        }
        None => (DEFAULT_GESTURE_TIMEOUT_MS, Vec::new()),
    };
    let (mut run, mut action) = GestureRun::start(gesture, timeout_ms, candidates);
    let mut commands = Vec::new();
    loop {
        match action {
            GestureAction::Finish(result) => return Dispatch { commands, tree_fetches, result },
            GestureAction::Send(cmd) => {
                let result = reply(&cmd.command);
                let outcome = if driver_result_is_error(&result) {
                    Err(driver_failure(&cmd.command, &result, "{}"))
                } else {
                    Ok(())
                };
                commands.push((cmd.command, cmd.params));
                let (next, next_action) = run.step(outcome);
                run = next;
                action = next_action;
            }
        }
    }
}

fn timeout_of(d: &Dispatch, command: &str) -> Option<String> {
    d.commands
        .iter()
        .find(|(c, _)| c == command)
        .and_then(|(_, p)| field(p, "timeout").map(|t| t.to_string()))
}

#[test]
fn execute_driver_command_returns_err_when_driver_reports_is_error() {
    let reply = obj(vec![("isError", JsonValue::Bool(true)), ("response", s("Waited ... Timed out"))]);
    assert!(driver_result_is_error(&reply));
    match driver_failure("waitFor", &reply, "{}") {
        ApplicationError::DriverError(m) => assert!(m.contains("Timed out")),
        other => panic!("isError:true debe mapear a Err: {other:?}"),
    }
}

#[test]
fn enter_text_taps_the_finder_before_entering_text() {
    let d = dispatch(
        Gesture::EnterText { finder: Finder::by_key("email_field"), text: "hi".into(), timeout_ms: None },
        tree_with_text("x"),
        |_| ok_driver_result(),
    );
    assert!(d.result.is_ok());
    let names: Vec<&str> = d.commands.iter().map(|(c, _)| c.as_str()).collect();
    assert_eq!(names, vec!["tap", "enter_text"]);
}

#[test]
fn clear_text_taps_the_finder_before_clearing_text() {
    let d = dispatch(
        Gesture::ClearText { finder: Finder::by_key("email_field"), timeout_ms: None },
        tree_with_text("x"),
        |_| ok_driver_result(),
    );
    let names: Vec<&str> = d.commands.iter().map(|(c, _)| c.as_str()).collect();
    assert_eq!(names, vec!["tap", "enter_text"]);
    assert_eq!(field(&d.commands[1].1, "text"), Some(""));
}

#[test]
fn wait_for_sends_timeout_ms_unconverted() {
    let params = timed_finder_params(&Finder::by_text("Hola", true), 2000);
    assert_eq!(field(&params, "timeout"), Some("2000"));
}

#[test]
fn wait_for_absent_sends_timeout_ms_unconverted() {
    let params = timed_finder_params(&Finder::by_text("Hola", true), 3000);
    assert_eq!(field(&params, "timeout"), Some("3000"));
}

#[test]
fn tap_uses_fast_fail_timeout_when_precheck_finds_no_match() {
    let d = dispatch(
        Gesture::Tap { finder: Finder::by_text("Texto Que No Existe", true), timeout_ms: None },
        tree_with_text("Cancelar"),
        |_| ok_driver_result(),
    );
    assert!(d.result.is_ok(), "el comando real igual se intenta, aunque el pre-chequeo no haya matcheado");
    assert_eq!(timeout_of(&d, "tap").as_deref(), Some("800"));
}

#[test]
fn tap_uses_default_timeout_when_precheck_finds_match() {
    let d = dispatch(
        Gesture::Tap { finder: Finder::by_text("Guardar", true), timeout_ms: None },
        tree_with_text("Guardar"),
        |_| ok_driver_result(),
    );
    assert_eq!(timeout_of(&d, "tap").as_deref(), Some("5000"));
}

#[test]
fn tap_with_explicit_timeout_ms_skips_precheck_and_uses_given_value() {
    let d = dispatch(
        Gesture::Tap { finder: Finder::by_text("Cualquier cosa", true), timeout_ms: Some(1234) },
        tree_with_text("Cualquier cosa"),
        |_| ok_driver_result(),
    );
    assert_eq!(timeout_of(&d, "tap").as_deref(), Some("1234"));
    assert_eq!(d.tree_fetches, 0, "un timeout_ms explícito debe saltar el precheck por completo");
}

#[test]
fn tap_without_timeout_ms_still_runs_precheck() {
    let d = dispatch(
        Gesture::Tap { finder: Finder::by_text("Guardar", true), timeout_ms: None },
        tree_with_text("Guardar"),
        |_| ok_driver_result(),
    );
    assert_eq!(d.tree_fetches, 1);
    assert_eq!(
        timeout_of(&d, "tap").as_deref(),
        Some("5000"),
        "sin override, el precheck sigue decidiendo el timeout (match -> default)"
    );
}

#[test]
fn enter_text_with_explicit_timeout_ms_applies_to_the_tap_substep_only() {
    let d = dispatch(
        Gesture::EnterText { finder: Finder::by_text("Campo", true), text: "hi".into(), timeout_ms: Some(999) },
        tree_with_text("x"),
        |_| ok_driver_result(),
    );
    assert_eq!(timeout_of(&d, "tap").as_deref(), Some("999"));
    assert_eq!(
        timeout_of(&d, "enter_text").as_deref(),
        Some("5000"),
        "el override del tap de foco no debe filtrarse al literal hardcodeado de enter_text"
    );
}

#[test]
fn tap_page_back_sends_page_back_finder_type_with_no_extra_params() {
    let d = dispatch(
        Gesture::Tap { finder: Finder::PageBack, timeout_ms: None },
        tree_with_text("lo que sea"),
        |_| ok_driver_result(),
    );
    let (_, tap) = d.commands.iter().find(|(c, _)| c == "tap").expect("debe haber invocado tap");
    assert_eq!(field(tap, "finderType"), Some("PageBack"));
    assert_eq!(field(tap, "timeout"), Some("5000"));
    for forbidden in ["text", "label", "type", "keyValueString"] {
        assert!(field(tap, forbidden).is_none(), "PageBack no debe llevar el campo '{forbidden}'");
    }
    assert_eq!(d.tree_fetches, 0, "PageBack no es un finder lento, no debería disparar precheck");
}

#[test]
fn tap_error_includes_candidate_suggestions_when_precheck_finds_similar_text() {
    let d = dispatch(
        Gesture::Tap { finder: Finder::by_text("Guardar", true), timeout_ms: None },
        tree_with_text("Guardar cambios"),
        |command| {
            if command == "tap" {
                obj(vec![
                    ("isError", JsonValue::Bool(true)),
                    (
                        "response",
                        s("Timeout while executing tap: TimeoutException after 0:00:00.800000: Future not completed"),
                    ),
                ])
            } else {
                ok_driver_result()
            }
        },
    );
    match d.result {
        Err(ApplicationError::DriverError(m)) => assert!(m.contains("Guardar cambios")),
        other => panic!("el tap real también falla en este escenario: {other:?}"),
    }
}

#[test]
fn scroll_until_visible_returns_err_when_max_scrolls_exhausted() {
    let d = dispatch(
        Gesture::ScrollUntilVisible {
            scrollable: None,
            target: Finder::by_text("Nunca Aparece", true),
            delta: (-200.0f64).to_string(),
            max_scrolls: 2,
        },
        tree_with_text("x"),
        |command| {
            if command == "waitFor" {
                obj(vec![("isError", JsonValue::Bool(true)), ("response", s("Waited ... Timed out"))])
            } else {
                ok_driver_result()
            }
        },
    );
    match d.result {
        Err(ApplicationError::WidgetNotFound(m)) => {
            assert!(m.contains("scrollUntilVisible"));
            assert!(m.contains("delta=-200"));
        }
        other => panic!("agotar max_scrolls sin match debe devolver Err, no Ok silencioso: {other:?}"),
    }
    assert_eq!(d.commands.len(), 4);
}

/// The commands the transport sends for one driver command, configuring the extension
/// first when it needs it.
fn send_command(setup: &mut ExtensionSetup, command: &str, log: &mut Vec<String>) {
    let pending = setup.pending_commands();
    if !pending.is_empty() {
        for c in pending {
            log.push(c.command);
        }
        setup.mark_configured();
    }
    log.push(command.to_string());
}

#[test]
fn driver_extension_is_configured_once_and_reset_after_hot_restart() {
    let mut setup = ExtensionSetup::new();
    let mut commands = Vec::new();
    send_command(&mut setup, "tap", &mut commands);
    send_command(&mut setup, "tap", &mut commands);
    assert_eq!(commands, vec!["set_frame_sync", "set_text_entry_emulation", "tap", "tap"]);

    setup.reset();
    commands.clear();

    send_command(&mut setup, "tap", &mut commands);
    assert_eq!(commands, vec!["set_frame_sync", "set_text_entry_emulation", "tap"]);
}
