use flutter_mcp::json::JsonValue;
use flutter_mcp::services::tree_pruner::TreePruner;

fn s(v: &str) -> JsonValue {
    JsonValue::String(v.to_string())
}

fn obj(fields: Vec<(&str, JsonValue)>) -> JsonValue {
    JsonValue::Object(fields.into_iter().map(|(k, v)| (k.to_string(), v)).collect())
}

fn arr(items: Vec<JsonValue>) -> JsonValue {
    JsonValue::Array(items)
}

#[test]
fn test_prunes_single_padding_noise_with_child() {
    let input = obj(vec![
        ("description", s("Padding")),
        (
            "children",
            arr(vec![obj(vec![
                ("description", s("ElevatedButton")),
                (
                    "properties",
                    arr(vec![obj(vec![("name", s("key")), ("description", s("[<'btn_login'>]"))])]),
                ),
                (
                    "children",
                    arr(vec![obj(vec![
                        ("description", s("Text")),
                        (
                            "properties",
                            arr(vec![obj(vec![("name", s("data")), ("description", s("\"Iniciar Sesión\""))])]),
                        ),
                    ])]),
                ),
            ])]),
        ),
    ]);

    let pruned = TreePruner::prune_diagnostics_tree(&input).expect("Should not be None");
    assert_eq!(pruned.widget_type, "ElevatedButton");
    assert_eq!(pruned.key.as_deref(), Some("[<'btn_login'>]"));
    assert!(pruned.is_interactive);
    assert_eq!(pruned.children.len(), 1);
    assert_eq!(pruned.children[0].widget_type, "Text");
    assert_eq!(pruned.children[0].text.as_deref(), Some("\"Iniciar Sesión\""));
}

#[test]
fn test_discards_empty_noise_node() {
    let input = obj(vec![("description", s("SizedBox")), ("children", arr(vec![]))]);

    let pruned = TreePruner::prune_diagnostics_tree(&input);
    assert!(pruned.is_none());
}

#[test]
fn test_extracts_text_from_text_preview_field() {
    let input = obj(vec![
        ("description", s("Scaffold")),
        (
            "children",
            arr(vec![obj(vec![("description", s("Text")), ("textPreview", s("Administración"))])]),
        ),
    ]);

    let pruned = TreePruner::prune_diagnostics_tree(&input).expect("Should not be None");
    assert_eq!(pruned.children[0].text.as_deref(), Some("Administración"));
}

#[test]
fn test_text_preview_takes_priority_over_properties_when_both_present() {
    let input = obj(vec![
        ("description", s("Text")),
        ("textPreview", s("Del textPreview")),
        (
            "properties",
            arr(vec![obj(vec![("name", s("data")), ("description", s("Del properties"))])]),
        ),
    ]);

    let pruned = TreePruner::prune_diagnostics_tree(&input).expect("Should not be None");
    assert_eq!(pruned.text.as_deref(), Some("Del textPreview"));
}

// Own tests.

#[test]
fn result_wrapper_is_unwrapped() {
    let input = obj(vec![(
        "result",
        obj(vec![("description", s("Text")), ("textPreview", s("Hola"))]),
    )]);
    let pruned = TreePruner::prune_diagnostics_tree(&input).unwrap();
    assert_eq!(pruned.widget_type, "Text");
    assert_eq!(pruned.text.as_deref(), Some("Hola"));
    assert!(!pruned.is_interactive);
}

#[test]
fn noise_with_several_children_is_kept() {
    let leaf = |t: &str| obj(vec![("description", s("Text")), ("textPreview", s(t))]);
    let input = obj(vec![
        ("description", s("Column")),
        ("children", arr(vec![leaf("a"), leaf("b")])),
    ]);
    let pruned = TreePruner::prune_diagnostics_tree(&input).unwrap();
    assert_eq!(pruned.widget_type, "Column");
    assert_eq!(pruned.children.len(), 2);
}
