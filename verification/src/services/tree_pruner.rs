//! Pruning of a raw Flutter diagnostics tree (`ext.flutter.inspector` JSON) into a
//! compact tree of `WidgetNode`s.

use vstd::prelude::*;
use crate::entities::{WidgetNode, WidgetNodeView, lemma_nodes_view_index, lemma_nodes_view_len, node_view, nodes_view};
use crate::json::{
    JsonValue, lemma_array_decreases, lemma_get_decreases, spec_as_array, spec_as_bool, spec_get,
    spec_get_str,
};
use crate::text::{chars_eq_str, ends_with, extend_range, from_chars, matches_at_exec, starts_with, str_eq, to_chars};

verus! {

broadcast use vstd::string::group_string_axioms;

/// Widget types known to be interactive.
pub open spec fn is_interactive_type(t: Seq<char>) -> bool {
    ||| t == "ElevatedButton"@
    ||| t == "TextButton"@
    ||| t == "OutlinedButton"@
    ||| t == "IconButton"@
    ||| t == "FloatingActionButton"@
    ||| t == "InkWell"@
    ||| t == "GestureDetector"@
    ||| t == "Switch"@
    ||| t == "Checkbox"@
    ||| t == "Radio"@
    ||| t == "Slider"@
    ||| t == "TextField"@
    ||| t == "TextFormField"@
    ||| t == "DropdownButton"@
    ||| t == "PopupMenuButton"@
    ||| t == "CupertinoButton"@
    ||| t == "CupertinoSwitch"@
    ||| t == "CupertinoTextField"@
}

/// Purely structural / layout widget types with no direct semantic value.
pub open spec fn is_layout_noise_type(t: Seq<char>) -> bool {
    ||| t == "Padding"@
    ||| t == "SizedBox"@
    ||| t == "ConstrainedBox"@
    ||| t == "ColoredBox"@
    ||| t == "Center"@
    ||| t == "Align"@
    ||| t == "Transform"@
    ||| t == "ClipRRect"@
    ||| t == "ClipRect"@
    ||| t == "DecoratedBox"@
    ||| t == "DefaultTextStyle"@
    ||| t == "Directionality"@
    ||| t == "MediaQuery"@
    ||| t == "Theme"@
    ||| t == "Builder"@
    ||| t == "KeyedSubtree"@
    ||| t == "RepaintBoundary"@
    ||| t == "CustomPaint"@
    ||| t == "AnimatedBuilder"@
    ||| t == "NotificationListener"@
    ||| t == "ScrollConfiguration"@
    ||| t == "Focus"@
    ||| t == "FocusScope"@
    ||| t == "Actions"@
    ||| t == "Shortcuts"@
}

/// Which node attribute a diagnostics property provides.
#[derive(Debug, Clone, Copy, PartialEq, Eq, Structural)]
pub enum PropertyKind {
    Key,
    Text,
    Tooltip,
    SemanticsLabel,
}

/// The property names that provide an attribute.
pub open spec fn is_property_name(kind: PropertyKind, name: Seq<char>) -> bool {
    match kind {
        PropertyKind::Key => name == "key"@,
        PropertyKind::Text => name == "data"@ || name == "text"@ || name == "title"@,
        PropertyKind::Tooltip => name == "tooltip"@ || name == "message"@,
        PropertyKind::SemanticsLabel => name == "semanticsLabel"@ || name == "label"@,
    }
}

/// The description of the first property at or after `i` that provides `kind` and
/// has a string description.
pub open spec fn find_property_from(props: Seq<JsonValue>, kind: PropertyKind, i: int) -> Option<Seq<char>>
    decreases props.len() - i,
{
    if i < 0 || i >= props.len() {
        None
    } else {
        let p = props[i];
        match (spec_get_str(p, "name"@), spec_get_str(p, "description"@)) {
            (Some(n), Some(d)) if is_property_name(kind, n) => Some(d),
            _ => find_property_from(props, kind, i + 1),
        }
    }
}

/// The value a node's `properties` give for `kind`.
pub open spec fn spec_property(j: JsonValue, kind: PropertyKind) -> Option<Seq<char>> {
    match spec_get(j, "properties"@) {
        Some(p) => match spec_as_array(p) {
            Some(props) => find_property_from(props, kind, 0),
            None => None,
        },
        None => None,
    }
}

/// The node itself, or its `result` field when it has one.
pub open spec fn unwrap_result(json: JsonValue) -> JsonValue {
    match spec_get(json, "result"@) {
        Some(r) => r,
        None => json,
    }
}

/// `description`, else `widgetRuntimeType`, else `Unknown`.
pub open spec fn spec_widget_type(j: JsonValue) -> Seq<char> {
    match spec_get_str(j, "description"@) {
        Some(d) => d,
        None => match spec_get_str(j, "widgetRuntimeType"@) {
            Some(t) => t,
            None => "Unknown"@,
        },
    }
}

/// `textPreview`, else a `data`/`text`/`title` property, else the quoted text of a
/// `Text("...")` description.
pub open spec fn spec_text(j: JsonValue) -> Option<Seq<char>> {
    match spec_get_str(j, "textPreview"@) {
        Some(t) => Some(t),
        None => match spec_property(j, PropertyKind::Text) {
            Some(t) => Some(t),
            None => if spec_widget_type(j) == "Text"@ {
                match spec_get_str(j, "description"@) {
                    Some(d) => if starts_with(d, text_call_prefix()) && ends_with(d, text_call_suffix()) {
                        Some(d.subrange(6, d.len() - 2))
                    } else {
                        None
                    },
                    None => None,
                }
            } else {
                None
            },
        },
    }
}

pub open spec fn spec_is_interactive(j: JsonValue) -> bool {
    is_interactive_type(spec_widget_type(j)) || match spec_get(j, "hasTapHandler"@) {
        Some(h) => spec_as_bool(h) == Some(true),
        None => false,
    }
}

/// How the description of a `Text` widget starts when it quotes its text.
pub open spec fn text_call_prefix() -> Seq<char> {
    "Text("@.push('\u{22}')
}

/// The closing quote and parenthesis of a `Text("...")` description.
pub open spec fn text_call_suffix() -> Seq<char> {
    seq!['\u{22}', '\u{29}']
}

/// The raw children of a node.
pub open spec fn spec_children_json(j: JsonValue) -> Seq<JsonValue> {
    match spec_get(j, "children"@) {
        Some(c) => match spec_as_array(c) {
            Some(a) => a,
            None => Seq::empty(),
        },
        None => Seq::empty(),
    }
}

pub proof fn lemma_children_decrease(json: JsonValue)
    ensures
        decreases_to!(json => spec_children_json(unwrap_result(json))) || spec_children_json(unwrap_result(json)).len() == 0,
{
    lemma_get_decreases(json, "result"@);
    let j = unwrap_result(json);
    lemma_get_decreases(j, "children"@);
    if let Some(c) = spec_get(j, "children"@) {
        if let Some(a) = spec_as_array(c) {
            lemma_array_decreases(c, a);
        }
    }
}

/// The pruned tree of a raw diagnostics node: layout noise without key or text is
/// flattened into its only child, or dropped when it has none.
pub open spec fn spec_prune(json: JsonValue) -> Option<WidgetNodeView>
    decreases json, 1int,
{
    let j = unwrap_result(json);
    let kids_json = spec_children_json(j);
    let kids = if kids_json.len() == 0 {
        Seq::empty()
    } else {
        proof {
            lemma_children_decrease(json);
        }
        spec_prune_all(kids_json)
    };
    let widget_type = spec_widget_type(j);
    let key = spec_property(j, PropertyKind::Key);
    let text = spec_text(j);
    if is_layout_noise_type(widget_type) && key is None && text is None && kids.len() <= 1 {
        if kids.len() == 1 {
            Some(kids[0])
        } else {
            None
        }
    } else {
        Some(
            WidgetNodeView {
                widget_type,
                key,
                text,
                tooltip: spec_property(j, PropertyKind::Tooltip),
                semantics_label: spec_property(j, PropertyKind::SemanticsLabel),
                is_interactive: spec_is_interactive(j),
                children: kids,
            },
        )
    }
}

/// The pruned trees of the nodes of `s` that survive pruning, in order.
pub open spec fn spec_prune_all(s: Seq<JsonValue>) -> Seq<WidgetNodeView>
    decreases s, 0int,
{
    if s.len() == 0 {
        Seq::empty()
    } else {
        let rest = spec_prune_all(s.drop_last());
        match spec_prune(s.last()) {
            Some(n) => rest.push(n),
            None => rest,
        }
    }
}

pub open spec fn opt_node_view(r: Option<WidgetNode>) -> Option<WidgetNodeView> {
    match r {
        Some(n) => Some(node_view(n)),
        None => None,
    }
}

// ---------------------------------------------------------------------------
// Laws
// ---------------------------------------------------------------------------

/// No node of the tree is layout noise without key and text that has fewer than two
/// children (such nodes are flattened or dropped).
pub open spec fn no_trivial_noise(n: WidgetNodeView) -> bool
    decreases n,
{
    &&& (is_layout_noise_type(n.widget_type) && n.key is None && n.text is None) ==> n.children.len() >= 2
    &&& forall|i: int| 0 <= i < n.children.len() ==> no_trivial_noise(#[trigger] n.children[i])
}

/// Pruning leaves no trivial layout-noise node anywhere in the tree.
pub proof fn law_prune_removes_trivial_noise(json: JsonValue)
    ensures
        spec_prune(json) matches Some(n) ==> no_trivial_noise(n),
    decreases json, 1int,
{
    let j = unwrap_result(json);
    let kids_json = spec_children_json(j);
    let kids = if kids_json.len() == 0 {
        Seq::empty()
    } else {
        spec_prune_all(kids_json)
    };
    if kids_json.len() > 0 {
        lemma_children_decrease(json);
        lemma_prune_all_removes_trivial_noise(kids_json);
    }
    assert forall|i: int| 0 <= i < kids.len() implies no_trivial_noise(#[trigger] kids[i]) by {}
    if let Some(n) = spec_prune(json) {
        if n.children == kids {
            assert(no_trivial_noise(n));
        } else {
            assert(n == kids[0]);
        }
    }
}

/// Every tree that survives pruning among `s` has no trivial layout-noise node.
pub proof fn lemma_prune_all_removes_trivial_noise(s: Seq<JsonValue>)
    ensures
        forall|i: int| 0 <= i < spec_prune_all(s).len() ==> no_trivial_noise(#[trigger] spec_prune_all(s)[i]),
    decreases s, 0int,
{
    if s.len() > 0 {
        lemma_prune_all_removes_trivial_noise(s.drop_last());
        law_prune_removes_trivial_noise(s.last());
        let rest = spec_prune_all(s.drop_last());
        assert forall|i: int| 0 <= i < spec_prune_all(s).len() implies no_trivial_noise(#[trigger] spec_prune_all(s)[i]) by {
            if i < rest.len() {
                assert(spec_prune_all(s)[i] == rest[i]);
            }
        }
    }
}

/// A node that pruning keeps as itself (it is not layout noise) becomes a node of its own
/// widget type that is interactive exactly when its type is a known interactive widget
/// or its raw JSON carries `hasTapHandler: true`, whatever the type; a `textPreview`
/// string, when present, is its text.
pub proof fn law_tap_handler_marks_interactive(json: JsonValue)
    requires
        !is_layout_noise_type(spec_widget_type(unwrap_result(json))),
    ensures
        spec_prune(json) matches Some(n) && n.widget_type == spec_widget_type(unwrap_result(json)) && (n.is_interactive
            <==> (is_interactive_type(n.widget_type)
            || spec_get(unwrap_result(json), "hasTapHandler"@) == Some(JsonValue::Bool(true)))),
        spec_get_str(unwrap_result(json), "textPreview"@) matches Some(t) ==> spec_prune(json) matches Some(n) && n.text == Some(t),
{
}

/// Prunes raw Flutter diagnostics trees.
pub struct TreePruner;

impl TreePruner {
    /// Converts a raw diagnostics tree into a compact `WidgetNode` tree; `None` when
    /// nothing visible remains.
    pub fn prune_diagnostics_tree(json: &JsonValue) -> (r: Option<WidgetNode>)
        ensures
            opt_node_view(r) == spec_prune(*json),
        decreases json,
    {
        proof {
            lemma_get_decreases(*json, "result"@);
        }
        let j: &JsonValue = match json.get("result") {
            Some(r) => r,
            None => json,
        };
        let widget_type: String = match j.get_str("description") {
            Some(d) => String::from_str(d),
            None => match j.get_str("widgetRuntimeType") {
                Some(t) => String::from_str(t),
                None => String::from_str("Unknown"),
            },
        };
        let wt = to_chars(widget_type.as_str());
        let key = Self::property(j, PropertyKind::Key);
        let text = Self::text(j, &wt);
        let tooltip = Self::property(j, PropertyKind::Tooltip);
        let semantics_label = Self::property(j, PropertyKind::SemanticsLabel);
        let tap = match j.get("hasTapHandler") {
            Some(h) => match h.as_bool() {
                Some(b) => b,
                None => false,
            },
            None => false,
        };
        let is_interactive = Self::interactive_type(&wt) || tap;
        let is_noise = Self::noise_type(&wt);

        let mut kids: Vec<WidgetNode> = Vec::new();
        proof {
            lemma_get_decreases(*j, "children"@);
        }
        let ghost kids_json = spec_children_json(*j);
        match j.get("children") {
            Some(c) => match c.as_array() {
                Some(children) => {
                    proof {
                        lemma_array_decreases(*c, children@);
                    }
                    let mut i: usize = 0;
                    while i < children.len()
                        invariant
                            i <= children.len(),
                            children@ == kids_json,
                            decreases_to!(*json => children@),
                            nodes_view(kids@) == spec_prune_all(children@.take(i as int)),
                        decreases children.len() - i,
                    {
                        proof {
                            assert(decreases_to!(children@ => children@[i as int]));
                            let t = children@.take(i + 1);
                            assert(t.drop_last() == children@.take(i as int));
                            assert(t.last() == children@[i as int]);
                        }
                        let ghost before = kids@;
                        match Self::prune_diagnostics_tree(&children[i]) {
                            Some(n) => {
                                kids.push(n);
                                assert(kids@.drop_last() == before);
                            },
                            None => {},
                        }
                        i = i + 1;
                    }
                    assert(children@.take(children.len() as int) == children@);
                },
                None => {},
            },
            None => {},
        }
        proof {
            lemma_nodes_view_len(kids@);
            if kids_json.len() == 0 {
                assert(kids@.len() == 0);
                assert(nodes_view(kids@) == Seq::<WidgetNodeView>::empty());
            }
        }
        if is_noise && key.is_none() && text.is_none() {
            if kids.len() == 1 {
                proof {
                    lemma_nodes_view_index(kids@, 0);
                }
                return kids.pop();
            } else if kids.len() == 0 {
                return None;
            }
        }
        Some(
            WidgetNode {
                widget_type,
                key,
                text,
                tooltip,
                semantics_label,
                is_interactive,
                children: kids,
            },
        )
    }

    fn name_matches(kind: PropertyKind, name: &str) -> (r: bool)
        ensures
            r == is_property_name(kind, name@),
    {
        match kind {
            PropertyKind::Key => str_eq(name, "key"),
            PropertyKind::Text => str_eq(name, "data") || str_eq(name, "text") || str_eq(name, "title"),
            PropertyKind::Tooltip => str_eq(name, "tooltip") || str_eq(name, "message"),
            PropertyKind::SemanticsLabel => str_eq(name, "semanticsLabel") || str_eq(name, "label"),
        }
    }

    fn property(j: &JsonValue, kind: PropertyKind) -> (r: Option<String>)
        ensures
            match r {
                Some(s) => spec_property(*j, kind) == Some(s@),
                None => spec_property(*j, kind) is None,
            },
    {
        let props = match j.get("properties") {
            Some(p) => match p.as_array() {
                Some(a) => a,
                None => return None,
            },
            None => return None,
        };
        let mut i: usize = 0;
        while i < props.len()
            invariant
                i <= props.len(),
                spec_property(*j, kind) == find_property_from(props@, kind, i as int),
            decreases props.len() - i,
        {
            let p = &props[i];
            match (p.get_str("name"), p.get_str("description")) {
                (Some(n), Some(d)) => {
                    if Self::name_matches(kind, n) {
                        return Some(String::from_str(d));
                    }
                },
                _ => {},
            }
            i = i + 1;
        }
        None
    }

    fn text(j: &JsonValue, widget_type: &Vec<char>) -> (r: Option<String>)
        requires
            widget_type@ == spec_widget_type(*j),
        ensures
            match r {
                Some(s) => spec_text(*j) == Some(s@),
                None => spec_text(*j) is None,
            },
    {
        if let Some(t) = j.get_str("textPreview") {
            return Some(String::from_str(t));
        }
        if let Some(t) = Self::property(j, PropertyKind::Text) {
            return Some(t);
        }
        if chars_eq_str(widget_type, "Text") {
            if let Some(d) = j.get_str("description") {
                let dv = to_chars(d);
                let mut prefix = to_chars("Text(");
                prefix.push('\u{22}');
                let suffix: Vec<char> = vec!['\u{22}', '\u{29}'];
                let has_prefix = matches_at_exec(&dv, &prefix, 0);
                let has_suffix = suffix.len() <= dv.len() && matches_at_exec(&dv, &suffix, dv.len() - suffix.len());
                assert(has_prefix == starts_with(dv@, text_call_prefix())) by {
                    assert(dv@.take(prefix@.len() as int) == dv@.subrange(0, prefix@.len() as int));
                }
                assert(has_suffix == ends_with(dv@, text_call_suffix())) by {
                    if suffix@.len() <= dv@.len() {
                        assert(dv@.skip(dv@.len() - 2) == dv@.subrange(dv@.len() - 2, dv@.len() as int));
                    }
                }
                if has_prefix && has_suffix {
                    proof {
                        reveal_strlit("Text");
                        reveal_strlit("Text(");
                        assert(dv@ == "Text"@);
                        assert(false);
                    }
                    let mut inner: Vec<char> = Vec::new();
                    extend_range(&mut inner, &dv, 6, dv.len() - 2);
                    return Some(from_chars(&inner));
                }
            }
        }
        None
    }

    fn interactive_type(t: &Vec<char>) -> (r: bool)
        ensures
            r == is_interactive_type(t@),
    {
        chars_eq_str(t, "ElevatedButton") || chars_eq_str(t, "TextButton") || chars_eq_str(t, "OutlinedButton")
            || chars_eq_str(t, "IconButton") || chars_eq_str(t, "FloatingActionButton") || chars_eq_str(t, "InkWell")
            || chars_eq_str(t, "GestureDetector") || chars_eq_str(t, "Switch") || chars_eq_str(t, "Checkbox")
            || chars_eq_str(t, "Radio") || chars_eq_str(t, "Slider") || chars_eq_str(t, "TextField")
            || chars_eq_str(t, "TextFormField") || chars_eq_str(t, "DropdownButton") || chars_eq_str(t, "PopupMenuButton")
            || chars_eq_str(t, "CupertinoButton") || chars_eq_str(t, "CupertinoSwitch") || chars_eq_str(t, "CupertinoTextField")
    }

    fn noise_type(t: &Vec<char>) -> (r: bool)
        ensures
            r == is_layout_noise_type(t@),
    {
        chars_eq_str(t, "Padding") || chars_eq_str(t, "SizedBox") || chars_eq_str(t, "ConstrainedBox")
            || chars_eq_str(t, "ColoredBox") || chars_eq_str(t, "Center") || chars_eq_str(t, "Align")
            || chars_eq_str(t, "Transform") || chars_eq_str(t, "ClipRRect") || chars_eq_str(t, "ClipRect")
            || chars_eq_str(t, "DecoratedBox") || chars_eq_str(t, "DefaultTextStyle") || chars_eq_str(t, "Directionality")
            || chars_eq_str(t, "MediaQuery") || chars_eq_str(t, "Theme") || chars_eq_str(t, "Builder")
            || chars_eq_str(t, "KeyedSubtree") || chars_eq_str(t, "RepaintBoundary") || chars_eq_str(t, "CustomPaint")
            || chars_eq_str(t, "AnimatedBuilder") || chars_eq_str(t, "NotificationListener")
            || chars_eq_str(t, "ScrollConfiguration") || chars_eq_str(t, "Focus") || chars_eq_str(t, "FocusScope")
            || chars_eq_str(t, "Actions") || chars_eq_str(t, "Shortcuts")
    }
}

} // verus!
