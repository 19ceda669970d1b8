//! Polymorphic search criteria for widgets, and their Flutter Driver wire parameters.

use vstd::prelude::*;
use crate::json::{JsonNumber, JsonValue, spec_as_str};

verus! {

broadcast use vstd::string::group_string_axioms;

/// How a widget is located in the running app.
#[derive(Debug, Clone, PartialEq)]
pub enum Finder {
    /// Exact `ValueKey`/`Key`.
    Key(String),
    /// Visible text.
    Text { text: String, exact: bool },
    /// Tooltip message.
    Tooltip(String),
    /// Widget type (e.g. `ElevatedButton`).
    Type(String),
    /// Accessibility / semantics label.
    SemanticsLabel(String),
    /// Exact screen coordinates, each kept as the bit pattern of its `f64` value.
    Coordinates { x_bits: u64, y_bits: u64 },
    /// The standard back gesture (`finderType: "PageBack"`).
    PageBack,
}

/// A field whose key is `k` and whose value is the string `v`.
pub open spec fn is_str_field(e: (String, JsonValue), k: Seq<char>, v: Seq<char>) -> bool {
    e.0@ == k && spec_as_str(e.1) == Some(v)
}

/// A field whose key is `k` and whose value is the floating-point number with bits `b`.
pub open spec fn is_float_field(e: (String, JsonValue), k: Seq<char>, b: u64) -> bool {
    e.0@ == k && e.1 == JsonValue::Number(JsonNumber::Float(b))
}

/// The Flutter Driver parameters of a finder, field by field.
pub open spec fn is_driver_params(f: Finder, fields: Seq<(String, JsonValue)>) -> bool {
    match f {
        Finder::Key(k) => fields.len() == 3 && is_str_field(fields[0], "finderType"@, "ByValueKey"@)
            && is_str_field(fields[1], "keyValueString"@, k@) && is_str_field(
            fields[2],
            "keyValueType"@,
            "String"@,
        ),
        Finder::Text { text, .. } => fields.len() == 2 && is_str_field(fields[0], "finderType"@, "ByText"@)
            && is_str_field(fields[1], "text"@, text@),
        Finder::Tooltip(t) => fields.len() == 2 && is_str_field(fields[0], "finderType"@, "ByTooltipMessage"@)
            && is_str_field(fields[1], "text"@, t@),
        Finder::Type(t) => fields.len() == 2 && is_str_field(fields[0], "finderType"@, "ByType"@)
            && is_str_field(fields[1], "type"@, t@),
        Finder::SemanticsLabel(l) => fields.len() == 2 && is_str_field(fields[0], "finderType"@, "BySemanticsLabel"@)
            && is_str_field(fields[1], "label"@, l@),
        Finder::Coordinates { x_bits, y_bits } => fields.len() == 3 && is_str_field(fields[0], "finderType"@, "ByOffset"@)
            && is_float_field(fields[1], "dx"@, x_bits) && is_float_field(fields[2], "dy"@, y_bits),
        Finder::PageBack => fields.len() == 1 && is_str_field(fields[0], "finderType"@, "PageBack"@),
    }
}

fn str_field(k: &str, v: &str) -> (r: (String, JsonValue))
    ensures
        is_str_field(r, k@, v@),
{
    (String::from_str(k), JsonValue::string(v))
}

impl Finder {
    pub fn by_key(key: &str) -> (r: Self)
        ensures
            r matches Finder::Key(k) && k@ == key@,
    {
        Finder::Key(String::from_str(key))
    }

    pub fn by_text(text: &str, exact: bool) -> (r: Self)
        ensures
            r matches Finder::Text { text: t, exact: e } && t@ == text@ && e == exact,
    {
        Finder::Text { text: String::from_str(text), exact }
    }

    pub fn by_type(widget_type: &str) -> (r: Self)
        ensures
            r matches Finder::Type(t) && t@ == widget_type@,
    {
        Finder::Type(String::from_str(widget_type))
    }

    pub fn by_tooltip(tooltip: &str) -> (r: Self)
        ensures
            r matches Finder::Tooltip(t) && t@ == tooltip@,
    {
        Finder::Tooltip(String::from_str(tooltip))
    }

    pub fn by_semantics_label(label: &str) -> (r: Self)
        ensures
            r matches Finder::SemanticsLabel(l) && l@ == label@,
    {
        Finder::SemanticsLabel(String::from_str(label))
    }

    /// The parameters that identify this finder in the Flutter Driver protocol.
    pub fn to_driver_params(&self) -> (r: Vec<(String, JsonValue)>)
        ensures
            is_driver_params(*self, r@),
    {
        let mut map: Vec<(String, JsonValue)> = Vec::new();
        match self {
            Finder::Key(key_val) => {
                map.push(str_field("finderType", "ByValueKey"));
                map.push(str_field("keyValueString", key_val.as_str()));
                map.push(str_field("keyValueType", "String"));
            },
            Finder::Text { text, .. } => {
                map.push(str_field("finderType", "ByText"));
                map.push(str_field("text", text.as_str()));
            },
            Finder::Tooltip(tip) => {
                map.push(str_field("finderType", "ByTooltipMessage"));
                map.push(str_field("text", tip.as_str()));
            },
            Finder::Type(t) => {
                map.push(str_field("finderType", "ByType"));
                map.push(str_field("type", t.as_str()));
            },
            Finder::SemanticsLabel(label) => {
                map.push(str_field("finderType", "BySemanticsLabel"));
                map.push(str_field("label", label.as_str()));
            },
            Finder::Coordinates { x_bits, y_bits } => {
                map.push(str_field("finderType", "ByOffset"));
                map.push((String::from_str("dx"), JsonValue::Number(JsonNumber::Float(*x_bits))));
                map.push((String::from_str("dy"), JsonValue::Number(JsonNumber::Float(*y_bits))));
            },
            Finder::PageBack => {
                map.push(str_field("finderType", "PageBack"));
            },
        }
        map
    }
}

/// The driver parameters of a text finder do not depend on its `exact` flag.
pub proof fn law_driver_params_ignore_exact_flag(text: String, a: bool, b: bool, fields: Seq<(String, JsonValue)>)
    ensures
        is_driver_params(Finder::Text { text, exact: a }, fields) <==> is_driver_params(
            Finder::Text { text, exact: b },
            fields,
        ),
{
}

} // verus!
