use base64::Engine;
use flutter_mcp::application::error::ApplicationError;
use flutter_mcp::entities::{ErrorSource, WidgetNode};
use flutter_mcp::finder::Finder;
use flutter_mcp::json::{JsonNumber, JsonValue};
use flutter_mcp::vm::driver::{
    append_candidate_hint, classify_message, command_params, command_timeout, decode_screenshot,
    driver_error_message, driver_result_is_error, exception_pause_mode, first_isolate_id,
    isolate_id_or_default, legacy_tree_params, needs_precheck_tree, widget_tree_params, pause_exception_error, pause_exception_id,
    reply_result, reply_text, rpc_request, stack_trace, timed_finder_params, trace_events,
    Incoming, RpcReply,
};

fn s(v: &str) -> JsonValue {
    JsonValue::String(v.to_string())
}

fn num(n: i64) -> JsonValue {
    if n >= 0 {
        JsonValue::Number(JsonNumber::PosInt(n as u64))
    } else {
        JsonValue::Number(JsonNumber::NegInt(n))
    }
}

fn obj(fields: Vec<(&str, JsonValue)>) -> JsonValue {
    JsonValue::Object(fields.into_iter().map(|(k, v)| (k.to_string(), v)).collect())
}

fn arr(items: Vec<JsonValue>) -> JsonValue {
    JsonValue::Array(items)
}

fn field<'a>(v: &'a JsonValue, key: &str) -> Option<&'a JsonValue> {
    match v {
        JsonValue::Object(fields) => fields.iter().find(|(k, _)| k == key).map(|(_, v)| v),
        _ => None,
    }
}

fn tree_with_text(text: &str) -> JsonValue {
    obj(vec![
        ("description", s("Scaffold")),
        ("children", arr(vec![obj(vec![("description", s("Text")), ("textPreview", s(text))])])),
    ])
}

#[test]
fn driver_result_is_error_detects_bool_true() {
    assert!(driver_result_is_error(&obj(vec![("isError", JsonValue::Bool(true))])));
}

#[test]
fn driver_result_is_error_detects_string_true_defensively() {
    assert!(driver_result_is_error(&obj(vec![("isError", s("true"))])));
}

#[test]
fn driver_result_is_error_false_when_absent_or_false() {
    assert!(!driver_result_is_error(&obj(vec![("response", s("ok"))])));
    assert!(!driver_result_is_error(&obj(vec![("isError", JsonValue::Bool(false))])));
}

#[test]
fn driver_error_message_prefers_response_field() {
    let result = obj(vec![("isError", JsonValue::Bool(true)), ("response", s("Timed out waiting for X"))]);
    let msg = driver_error_message("waitFor", &result, "{\"isError\":true,\"response\":\"Timed out waiting for X\"}");
    assert!(msg.contains("waitFor"));
    assert!(msg.contains("Timed out waiting for X"));
}

#[test]
fn driver_error_message_falls_back_to_raw_json_without_response() {
    let result = obj(vec![("isError", JsonValue::Bool(true))]);
    let msg = driver_error_message("tap", &result, "{\"isError\":true}");
    assert!(msg.contains("isError"));
}

#[test]
fn driver_error_message_adds_hint_on_timeout_exception() {
    let result = obj(vec![
        ("isError", JsonValue::Bool(true)),
        (
            "response",
            s("Timeout while executing tap: TimeoutException after 0:00:05.000000: Future not completed"),
        ),
    ]);
    let msg = driver_error_message("tap", &result, "{}");
    assert!(msg.contains("flutter_snapshot"));
    assert!(msg.contains("by: \"key\""));
}

#[test]
fn driver_error_message_no_hint_without_timeout_exception() {
    let result = obj(vec![("isError", JsonValue::Bool(true)), ("response", s("Finder ambiguo: 2 matches"))]);
    let msg = driver_error_message("tap", &result, "{}");
    assert!(!msg.contains("flutter_snapshot"));
}

// Own tests.

#[test]
fn driver_error_message_exact_text() {
    let result = obj(vec![("response", s("boom"))]);
    assert_eq!(
        driver_error_message("tap", &result, "{}"),
        "Flutter Driver reportó un error ejecutando 'tap': boom"
    );
    assert!(driver_result_is_error(&obj(vec![("isError", s("TRUE"))])));
    assert!(!driver_result_is_error(&obj(vec![("isError", num(1))])));
}

#[test]
fn candidate_hint_lists_texts_tooltips_and_labels() {
    let candidates = vec![
        WidgetNode::new("Text", false).with_text("Guardar cambios"),
        WidgetNode::new("IconButton", true).with_tooltip("Guardar"),
        WidgetNode::new("Icon", false),
        WidgetNode::new("Checkbox", true).with_semantics_label("Guardado"),
    ];
    let e = append_candidate_hint(ApplicationError::DriverError("fallo".to_string()), &candidates);
    assert_eq!(
        e,
        ApplicationError::DriverError(
            "fallo Candidatos con texto/tooltip/semantics parecido encontrados en el árbol actual: Guardar cambios, Guardar, Guardado."
                .to_string()
        )
    );
}

#[test]
fn candidate_hint_leaves_other_errors_and_empty_candidates_alone() {
    let candidates = vec![WidgetNode::new("Text", false).with_text("x")];
    assert_eq!(append_candidate_hint(ApplicationError::NotConnected, &candidates), ApplicationError::NotConnected);
    assert_eq!(
        append_candidate_hint(ApplicationError::DriverError("m".to_string()), &vec![WidgetNode::new("Icon", false)]),
        ApplicationError::DriverError("m".to_string())
    );
}

#[test]
fn timeout_is_short_only_when_the_precheck_finds_no_match() {
    let no_match = tree_with_text("Cancelar");
    let (t, c) = command_timeout(None, &Finder::by_text("Texto Que No Existe", true), Some(&no_match));
    assert_eq!(t, 800);
    assert!(c.is_empty());

    let matching = tree_with_text("Guardar");
    let (t, c) = command_timeout(None, &Finder::by_text("Guardar", true), Some(&matching));
    assert_eq!(t, 5000);
    assert!(c.is_empty());

    let similar = tree_with_text("Guardar cambios");
    let (t, c) = command_timeout(None, &Finder::by_text("Guardar", true), Some(&similar));
    assert_eq!(t, 800);
    assert_eq!(c.len(), 1);
    assert_eq!(c[0].text.as_deref(), Some("Guardar cambios"));

    let (t, _) = command_timeout(None, &Finder::by_text("Guardar", true), None);
    assert_eq!(t, 5000);
}

#[test]
fn explicit_timeout_skips_the_precheck() {
    let finder = Finder::by_text("Cualquier cosa", true);
    assert!(!needs_precheck_tree(Some(1234), &finder));
    assert!(needs_precheck_tree(None, &finder));
    assert!(!needs_precheck_tree(None, &Finder::PageBack));
    let no_match = tree_with_text("otra");
    let (t, c) = command_timeout(Some(1234), &finder, Some(&no_match));
    assert_eq!(t, 1234);
    assert!(c.is_empty());
    let (t, _) = command_timeout(None, &Finder::PageBack, Some(&no_match));
    assert_eq!(t, 5000);
}

#[test]
fn timed_params_and_command_params() {
    let p = timed_finder_params(&Finder::by_text("Hola", true), 2000);
    assert_eq!(field(&p, "timeout").and_then(|v| v.as_str()), Some("2000"));
    assert_eq!(field(&p, "text").and_then(|v| v.as_str()), Some("Hola"));
    let c = command_params(p, "waitFor", "isolates/1");
    assert_eq!(field(&c, "command").and_then(|v| v.as_str()), Some("waitFor"));
    assert_eq!(field(&c, "isolateId").and_then(|v| v.as_str()), Some("isolates/1"));
    assert_eq!(field(&c, "finderType").and_then(|v| v.as_str()), Some("ByText"));
    assert_eq!(command_params(s("x"), "tap", "i"), s("x"));
}

#[test]
fn get_text_reply_is_read_from_response_then_top_level() {
    let nested = obj(vec![("response", obj(vec![("text", s("Auralis Music"))]))]);
    assert_eq!(reply_text(&nested, "r").unwrap(), "Auralis Music");
    let flat = obj(vec![("text", s("plano"))]);
    assert_eq!(reply_text(&flat, "r").unwrap(), "plano");
    assert_eq!(
        reply_text(&obj(vec![]), "Object {}"),
        Err(ApplicationError::DriverError(
            "No se pudo extraer texto del widget. Respuesta: Object {}".to_string()
        ))
    );
}

#[test]
fn screenshot_reply_is_decoded_from_base64() {
    let data = base64::prelude::BASE64_STANDARD.encode([1u8, 2, 3, 250]);
    let nested = obj(vec![("response", obj(vec![("data", s(&format!("  {data}\n")))]))]);
    assert_eq!(decode_screenshot(&nested, "r").unwrap(), vec![1u8, 2, 3, 250]);
    let inner = obj(vec![("data", obj(vec![("data", s(&data))]))]);
    assert_eq!(decode_screenshot(&inner, "r").unwrap(), vec![1u8, 2, 3, 250]);
    let legacy = obj(vec![("screenshot", s(&data))]);
    assert_eq!(decode_screenshot(&legacy, "r").unwrap(), vec![1u8, 2, 3, 250]);
    match decode_screenshot(&obj(vec![("screenshot", s("@@@"))]), "r") {
        Err(ApplicationError::DriverError(m)) => {
            assert!(m.starts_with("Error decodificando screenshot Base64: "))
        }
        other => panic!("se esperaba un error de decodificación: {other:?}"),
    }
    assert_eq!(
        decode_screenshot(&obj(vec![("screenshot", s(" @@@@ "))]), "r"),
        Err(ApplicationError::DriverError(
            "Error decodificando screenshot Base64: Invalid symbol 64, offset 0.".to_string()
        ))
    );
    assert_eq!(
        decode_screenshot(&obj(vec![]), "R"),
        Err(ApplicationError::DriverError("No se recibió captura en respuesta. Respuesta: R".to_string()))
    );
}

#[test]
fn isolate_discovery_and_default() {
    let vm = obj(vec![("isolates", arr(vec![obj(vec![("id", s("isolates/42"))]), obj(vec![("id", s("isolates/7"))])]))]);
    assert_eq!(first_isolate_id(&vm).as_deref(), Some("isolates/42"));
    assert_eq!(first_isolate_id(&obj(vec![("isolates", arr(vec![]))])), None);
    assert_eq!(isolate_id_or_default(&None), "isolates/main");
    assert_eq!(isolate_id_or_default(&Some("isolates/9".to_string())), "isolates/9");
}

#[test]
fn timeline_events_are_taken_from_trace_events() {
    let ev = obj(vec![("name", s("x"))]);
    let result = obj(vec![("traceEvents", arr(vec![ev]))]);
    assert_eq!(trace_events(result), vec![obj(vec![("name", s("x"))])]);
    assert!(trace_events(obj(vec![])).is_empty());
}

#[test]
fn stack_trace_lists_frames_by_code_name() {
    let result = obj(vec![(
        "frames",
        arr(vec![
            obj(vec![("code", obj(vec![("name", s("main"))]))]),
            obj(vec![]),
        ]),
    )]);
    assert_eq!(stack_trace(&result).as_deref(), Some("#0      main\n#1      <desconocido>"));
    assert_eq!(stack_trace(&obj(vec![("frames", arr(vec![]))])), None);
}

#[test]
fn pause_exception_errors() {
    let event = obj(vec![("timestamp", num(77)), ("exception", obj(vec![("id", s("objects/1"))]))]);
    let id = pause_exception_id(&event);
    assert_eq!(id.as_deref(), Some("objects/1"));
    let e = pause_exception_error(77, &id, Some("Bad state".to_string()), Some("#0      f".to_string()));
    assert_eq!(e.message, "Bad state");
    assert_eq!(e.source, ErrorSource::ExceptionPause);
    assert_eq!(e.occurrences, 1);
    assert_eq!(e.timestamp_ms, 77);
    let e2 = pause_exception_error(1, &id, None, None);
    assert_eq!(e2.message, "Excepción no capturada (no se pudo resolver el mensaje)");
    let e3 = pause_exception_error(1, &None, Some("x".to_string()), None);
    assert_eq!(e3.message, "Excepción no capturada (sin referencia de objeto)");
}

#[test]
fn json_rpc_messages() {
    let req = rpc_request(12, "getVM", obj(vec![]));
    assert_eq!(
        req,
        obj(vec![("jsonrpc", s("2.0")), ("id", s("12")), ("method", s("getVM")), ("params", obj(vec![]))])
    );
    assert_eq!(classify_message(&obj(vec![("id", s("3"))])), Incoming::Reply("3".to_string()));
    assert_eq!(classify_message(&obj(vec![("method", s("streamNotify"))])), Incoming::StreamNotify);
    assert_eq!(classify_message(&obj(vec![("id", num(3))])), Incoming::Other);
    assert_eq!(reply_result(obj(vec![("id", s("1")), ("result", s("ok"))])), RpcReply::Succeeded(s("ok")));
    assert_eq!(reply_result(obj(vec![("id", s("1"))])), RpcReply::Succeeded(JsonValue::Null));
    assert_eq!(reply_result(obj(vec![("error", obj(vec![]))])), RpcReply::Failed);
    assert_eq!(exception_pause_mode(true), "Unhandled");
    assert_eq!(exception_pause_mode(false), "None");
}

#[test]
fn inspector_tree_requests() {
    assert_eq!(
        widget_tree_params("isolates/1"),
        obj(vec![
            ("isolateId", s("isolates/1")),
            ("groupName", s("flutter-native-mcp")),
            ("isSummaryTree", JsonValue::Bool(true)),
            ("withPreviews", JsonValue::Bool(true)),
        ])
    );
    assert_eq!(
        legacy_tree_params("isolates/1", 50),
        obj(vec![("isolateId", s("isolates/1")), ("objectGroup", s("flutter-native-mcp")), ("subtreeDepth", num(50))])
    );
}
