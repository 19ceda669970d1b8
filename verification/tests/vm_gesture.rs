use flutter_mcp::application::error::ApplicationError;
use flutter_mcp::entities::WidgetNode;
use flutter_mcp::finder::Finder;
use flutter_mcp::json::JsonValue;
use flutter_mcp::vm::gesture::{
    extension_setup_commands, DriverCommand, Gesture, GestureAction, GestureRun,
};

fn field<'a>(v: &'a JsonValue, key: &str) -> Option<&'a str> {
    match v {
        JsonValue::Object(fields) => fields.iter().find(|(k, _)| k == key).and_then(|(_, v)| v.as_str()),
        _ => None,
    }
}

fn sent(act: &GestureAction) -> &DriverCommand {
    match act {
        GestureAction::Send(c) => c,
        GestureAction::Finish(r) => panic!("se esperaba un comando, terminó con {r:?}"),
    }
}

fn finished(act: GestureAction) -> Result<(), ApplicationError> {
    match act {
        GestureAction::Finish(r) => r,
        GestureAction::Send(c) => panic!("se esperaba el final, se envía {}", c.command),
    }
}

#[test]
fn tap_sends_one_tap_with_the_decided_timeout() {
    let g = Gesture::Tap { finder: Finder::by_text("Guardar", true), timeout_ms: None };
    let (run, act) = GestureRun::start(g, 800, Vec::new());
    let c = sent(&act);
    assert_eq!(c.command, "tap");
    assert_eq!(field(&c.params, "timeout"), Some("800"));
    assert_eq!(field(&c.params, "text"), Some("Guardar"));
    let (_, act) = run.step(Ok(()));
    assert_eq!(finished(act), Ok(()));
}

#[test]
fn page_back_tap_has_only_the_finder_type_and_timeout() {
    let g = Gesture::Tap { finder: Finder::PageBack, timeout_ms: None };
    let (_, act) = GestureRun::start(g, 5000, Vec::new());
    let c = sent(&act);
    match &c.params {
        JsonValue::Object(fields) => assert_eq!(fields.len(), 2),
        _ => panic!("parámetros no son un objeto"),
    }
    assert_eq!(field(&c.params, "finderType"), Some("PageBack"));
    assert_eq!(field(&c.params, "timeout"), Some("5000"));
    for forbidden in ["text", "label", "type", "keyValueString"] {
        assert!(field(&c.params, forbidden).is_none(), "PageBack no debe llevar el campo '{forbidden}'");
    }
}

#[test]
fn tap_error_carries_the_candidates() {
    let g = Gesture::Tap { finder: Finder::by_text("Guardar", true), timeout_ms: None };
    let cands = vec![WidgetNode::new("Text", false).with_text("Guardar cambios")];
    let (run, _) = GestureRun::start(g, 800, cands);
    let (_, act) = run.step(Err(ApplicationError::DriverError("falló".to_string())));
    match finished(act) {
        Err(ApplicationError::DriverError(m)) => assert!(m.contains("Guardar cambios")),
        other => panic!("resultado inesperado: {other:?}"),
    }
}

#[test]
fn enter_text_taps_before_entering_text_with_fixed_timeout() {
    let g = Gesture::EnterText {
        finder: Finder::by_key("email_field"),
        text: "hi".to_string(),
        timeout_ms: Some(999),
    };
    let (run, act) = GestureRun::start(g, 999, Vec::new());
    let tap = sent(&act);
    assert_eq!(tap.command, "tap");
    assert_eq!(field(&tap.params, "timeout"), Some("999"));
    let (run, act) = run.step(Ok(()));
    let enter = sent(&act);
    assert_eq!(enter.command, "enter_text");
    assert_eq!(field(&enter.params, "text"), Some("hi"));
    assert_eq!(field(&enter.params, "timeout"), Some("5000"));
    let (_, act) = run.step(Err(ApplicationError::DriverError("x".to_string())));
    assert_eq!(finished(act), Err(ApplicationError::DriverError("x".to_string())));
}

#[test]
fn clear_text_enters_the_empty_text() {
    let g = Gesture::ClearText { finder: Finder::by_key("email_field"), timeout_ms: None };
    let (run, _) = GestureRun::start(g, 5000, Vec::new());
    let (_, act) = run.step(Ok(()));
    let enter = sent(&act);
    assert_eq!(enter.command, "enter_text");
    assert_eq!(field(&enter.params, "text"), Some(""));
}

#[test]
fn scroll_sends_offsets_duration_in_microseconds_and_frequency() {
    let g = Gesture::Scroll {
        finder: Finder::by_type("ListView"),
        dx: "0".to_string(),
        dy: "-300".to_string(),
        duration_ms: 200,
        frequency: 60,
        timeout_ms: None,
    };
    let (_, act) = GestureRun::start(g, 5000, Vec::new());
    let c = sent(&act);
    assert_eq!(c.command, "scroll");
    assert_eq!(field(&c.params, "dx"), Some("0"));
    assert_eq!(field(&c.params, "dy"), Some("-300"));
    assert_eq!(field(&c.params, "duration"), Some("200000"));
    assert_eq!(field(&c.params, "frequency"), Some("60"));
    assert_eq!(field(&c.params, "timeout"), Some("5000"));
    assert_eq!(field(&c.params, "type"), Some("ListView"));
}

#[test]
fn scroll_into_view_sends_alignment() {
    let g = Gesture::ScrollIntoView { finder: Finder::by_key("footer_item"), alignment: "0.5".to_string(), timeout_ms: None };
    let (_, act) = GestureRun::start(g, 5000, Vec::new());
    let c = sent(&act);
    assert_eq!(c.command, "scrollIntoView");
    assert_eq!(field(&c.params, "alignment"), Some("0.5"));
}

#[test]
fn scroll_until_visible_checks_then_scrolls_until_exhausted() {
    let g = Gesture::ScrollUntilVisible {
        scrollable: None,
        target: Finder::by_text("Nunca Aparece", true),
        delta: "200".to_string(),
        max_scrolls: 2,
    };
    let (mut run, mut act) = GestureRun::start(g, 5000, Vec::new());
    let mut commands = Vec::new();
    loop {
        let c = match &act {
            GestureAction::Send(c) => c,
            GestureAction::Finish(_) => break,
        };
        commands.push(c.command.clone());
        if c.command == "waitFor" {
            assert_eq!(field(&c.params, "timeout"), Some("500"));
        } else {
            assert_eq!(field(&c.params, "type"), Some("Scrollable"));
            assert_eq!(field(&c.params, "dy"), Some("200"));
            assert_eq!(field(&c.params, "duration"), Some("300000"));
        }
        let (r, a) = run.step(Err(ApplicationError::DriverError("Waited ... Timed out".to_string())));
        run = r;
        act = a;
    }
    assert_eq!(commands, vec!["waitFor", "scroll", "waitFor", "scroll"]);
    match finished(act) {
        Err(ApplicationError::WidgetNotFound(m)) => {
            assert!(m.contains("scrollUntilVisible"));
            assert!(m.starts_with("scrollUntilVisible agotó 2 scrolls (delta=200)"));
        }
        other => panic!("resultado inesperado: {other:?}"),
    }
}

#[test]
fn scroll_until_visible_stops_when_the_target_appears() {
    let g = Gesture::ScrollUntilVisible {
        scrollable: Some(Finder::by_key("lista")),
        target: Finder::by_key("item"),
        delta: "-100".to_string(),
        max_scrolls: 5,
    };
    let (run, _) = GestureRun::start(g, 5000, Vec::new());
    let (run, act) = run.step(Err(ApplicationError::DriverError("no".to_string())));
    assert_eq!(field(&sent(&act).params, "keyValueString"), Some("lista"));
    let (run, act) = run.step(Ok(()));
    assert_eq!(sent(&act).command, "waitFor");
    let (_, act) = run.step(Ok(()));
    assert_eq!(finished(act), Ok(()));
}

#[test]
fn scroll_until_visible_without_scrolls_fails_at_once() {
    let g = Gesture::ScrollUntilVisible { scrollable: None, target: Finder::by_key("x"), delta: "1".to_string(), max_scrolls: 0 };
    let (_, act) = GestureRun::start(g, 5000, Vec::new());
    assert!(matches!(finished(act), Err(ApplicationError::WidgetNotFound(_))));
}

#[test]
fn precheck_finder_of_gestures() {
    let g = Gesture::Tap { finder: Finder::by_key("k"), timeout_ms: Some(3) };
    let (f, t) = g.precheck_finder().unwrap();
    assert_eq!(f, &Finder::by_key("k"));
    assert_eq!(t, Some(3));
    let s = Gesture::ScrollUntilVisible { scrollable: None, target: Finder::by_key("x"), delta: "1".to_string(), max_scrolls: 1 };
    assert!(s.precheck_finder().is_none());
}

#[test]
fn driver_extension_is_configured_with_string_values() {
    let cmds = extension_setup_commands();
    assert_eq!(cmds.len(), 2);
    assert_eq!(cmds[0].command, "set_frame_sync");
    assert_eq!(field(&cmds[0].params, "enabled"), Some("false"));
    assert_eq!(cmds[1].command, "set_text_entry_emulation");
    assert_eq!(field(&cmds[1].params, "enabled"), Some("true"));
}
