use flutter_mcp::entities::WidgetNode;
use flutter_mcp::finder::Finder;
use flutter_mcp::services::finder_resolver::{FinderResolver, ResolveOutcome};

fn leaf(widget_type: &str) -> WidgetNode {
    WidgetNode::new(widget_type, false)
}

#[test]
fn to_driver_params_ignores_exact_flag() {
    assert_eq!(
        Finder::by_text("Hola", true).to_driver_params(),
        Finder::by_text("Hola", false).to_driver_params()
    );
}

#[test]
fn is_slow_finder_true_for_text_tooltip_semantics() {
    assert!(FinderResolver::is_slow_finder(&Finder::by_text("x", true)));
    assert!(FinderResolver::is_slow_finder(&Finder::by_tooltip("x")));
    assert!(FinderResolver::is_slow_finder(&Finder::by_semantics_label("x")));
}

#[test]
fn is_slow_finder_false_for_key_type_coordinates() {
    assert!(!FinderResolver::is_slow_finder(&Finder::by_key("x")));
    assert!(!FinderResolver::is_slow_finder(&Finder::by_type("x")));
    assert!(!FinderResolver::is_slow_finder(&Finder::Coordinates {
        x_bits: 1.0f64.to_bits(),
        y_bits: 1.0f64.to_bits()
    }));
}

#[test]
fn quick_resolve_matches_exact_text_even_with_quoted_property_description() {
    let mut root = leaf("Scaffold");
    let mut button = leaf("ElevatedButton");
    button.add_child(leaf("Text").with_text("\"Guardar\""));
    root.add_child(button);

    let outcome = FinderResolver::quick_resolve(&root, &Finder::by_text("Guardar", true));
    assert_eq!(outcome, ResolveOutcome::Matched);
}

#[test]
fn quick_resolve_matches_tooltip_and_semantics_label() {
    let mut root = leaf("Scaffold");
    root.add_child(leaf("IconButton").with_tooltip("Cerrar sesión"));
    root.add_child(leaf("Checkbox").with_semantics_label("Aceptar términos"));

    assert_eq!(
        FinderResolver::quick_resolve(&root, &Finder::by_tooltip("Cerrar sesión")),
        ResolveOutcome::Matched
    );
    assert_eq!(
        FinderResolver::quick_resolve(&root, &Finder::by_semantics_label("Aceptar términos")),
        ResolveOutcome::Matched
    );
}

#[test]
fn quick_resolve_not_found_returns_similar_candidates() {
    let mut root = leaf("Scaffold");
    root.add_child(leaf("Text").with_text("Guardar cambios"));
    root.add_child(leaf("Text").with_text("Cancelar"));

    let outcome = FinderResolver::quick_resolve(&root, &Finder::by_text("Guardar", true));
    match outcome {
        ResolveOutcome::NotFound { candidates } => {
            assert_eq!(candidates.len(), 1);
            assert_eq!(candidates[0].text.as_deref(), Some("Guardar cambios"));
        }
        ResolveOutcome::Matched => panic!("no debería matchear un substring como exacto"),
    }
}

#[test]
fn quick_resolve_not_found_without_any_similar_text_yields_no_candidates() {
    let mut root = leaf("Scaffold");
    root.add_child(leaf("Text").with_text("Algo completamente distinto"));

    let outcome = FinderResolver::quick_resolve(&root, &Finder::by_text("Guardar", true));
    assert_eq!(outcome, ResolveOutcome::NotFound { candidates: Vec::new() });
}

// Own tests.

#[test]
fn similar_candidates_are_case_insensitive_and_capped() {
    let mut root = leaf("Scaffold");
    for i in 0..7 {
        root.add_child(leaf("Text").with_text(&format!("GUARDAR copia {i}")));
    }
    match FinderResolver::quick_resolve(&root, &Finder::by_text("guardar", true)) {
        ResolveOutcome::NotFound { candidates } => {
            assert_eq!(candidates.len(), 5);
            assert_eq!(candidates[0].text.as_deref(), Some("GUARDAR copia 0"));
            assert_eq!(candidates[4].text.as_deref(), Some("GUARDAR copia 4"));
        }
        ResolveOutcome::Matched => panic!("no hay match exacto"),
    }
}

#[test]
fn exact_finders_never_match_by_text() {
    let mut root = leaf("Scaffold");
    root.add_child(leaf("Text").with_text("x").with_key("x"));
    assert_eq!(
        FinderResolver::quick_resolve(&root, &Finder::by_key("x")),
        ResolveOutcome::NotFound { candidates: Vec::new() }
    );
}
