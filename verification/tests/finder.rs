use flutter_mcp::finder::Finder;
use flutter_mcp::json::{JsonNumber, JsonValue};

fn field<'a>(fields: &'a [(String, JsonValue)], key: &str) -> Option<&'a JsonValue> {
    fields.iter().find(|(k, _)| k == key).map(|(_, v)| v)
}

#[test]
fn to_driver_params_page_back_has_no_extra_fields() {
    let map = Finder::PageBack.to_driver_params();
    assert_eq!(field(&map, "finderType").and_then(|v| v.as_str()), Some("PageBack"));
    assert_eq!(map.len(), 1);
}

#[test]
fn key_finder_params_name_a_string_value_key() {
    let map = Finder::by_key("btn").to_driver_params();
    assert_eq!(map.len(), 3);
    assert_eq!(field(&map, "finderType").and_then(|v| v.as_str()), Some("ByValueKey"));
    assert_eq!(field(&map, "keyValueString").and_then(|v| v.as_str()), Some("btn"));
    assert_eq!(field(&map, "keyValueType").and_then(|v| v.as_str()), Some("String"));
}

#[test]
fn coordinates_finder_params_carry_the_offsets() {
    let map = Finder::Coordinates { x_bits: 1.5f64.to_bits(), y_bits: 2.0f64.to_bits() }.to_driver_params();
    assert_eq!(field(&map, "finderType").and_then(|v| v.as_str()), Some("ByOffset"));
    assert_eq!(field(&map, "dx"), Some(&JsonValue::Number(JsonNumber::Float(1.5f64.to_bits()))));
    assert_eq!(field(&map, "dy"), Some(&JsonValue::Number(JsonNumber::Float(2.0f64.to_bits()))));
}

#[test]
fn other_finders_params() {
    let tip = Finder::by_tooltip("Back").to_driver_params();
    assert_eq!(field(&tip, "finderType").and_then(|v| v.as_str()), Some("ByTooltipMessage"));
    assert_eq!(field(&tip, "text").and_then(|v| v.as_str()), Some("Back"));
    let ty = Finder::by_type("ListView").to_driver_params();
    assert_eq!(field(&ty, "type").and_then(|v| v.as_str()), Some("ListView"));
    let sem = Finder::by_semantics_label("Ok").to_driver_params();
    assert_eq!(field(&sem, "finderType").and_then(|v| v.as_str()), Some("BySemanticsLabel"));
    assert_eq!(field(&sem, "label").and_then(|v| v.as_str()), Some("Ok"));
}
