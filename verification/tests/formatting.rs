use bicep_docs::exports::common::{
    format_yes_no, format_yes_no_legacy, generate_metadata_display_asciidoc,
    generate_metadata_display_markdown,
};
use bicep_docs::exports::formatting::{
    escape_asciidoc, escape_markdown, format_bicep_type, format_bicep_type_with_backticks,
    format_bicep_value,
};
use bicep_docs::localization::translations::load_translations;
use bicep_docs::localization::Language;
use bicep_docs::ordered_map::OrderedMap;
use bicep_docs::{BicepType, BicepValue};

#[test]
fn test_format_yes_no() {
    let translator = load_translations(Language::English).unwrap();
    assert_eq!(format_yes_no(true, true, &translator), "✅ Yes");
    assert_eq!(format_yes_no(true, false, &translator), "Yes");
    assert_eq!(format_yes_no(false, true, &translator), "❌ No");
    assert_eq!(format_yes_no(false, false, &translator), "No");

    let spanish_translator = load_translations(Language::Spanish).unwrap();
    assert_eq!(format_yes_no(true, false, &spanish_translator), "Sí");
    assert_eq!(format_yes_no(false, false, &spanish_translator), "No");
}

#[test]
fn test_format_yes_no_legacy() {
    assert_eq!(format_yes_no_legacy(true, true), "✅ Yes");
    assert_eq!(format_yes_no_legacy(true, false), "Yes");
    assert_eq!(format_yes_no_legacy(false, true), "❌ No");
    assert_eq!(format_yes_no_legacy(false, false), "No");
}

#[test]
fn test_generate_metadata_display_markdown_empty() {
    let mut output = String::new();
    let metadata: OrderedMap<BicepValue> = OrderedMap::new();
    generate_metadata_display_markdown(&mut output, &metadata);
    assert!(output.is_empty());
}

#[test]
fn test_generate_metadata_display_asciidoc_empty() {
    let mut output = String::new();
    let metadata: OrderedMap<BicepValue> = OrderedMap::new();
    generate_metadata_display_asciidoc(&mut output, &metadata);
    assert!(output.is_empty());
}

#[test]
fn metadata_display_markdown_lists_entries() {
    let mut output = String::from("start\n");
    let mut metadata: OrderedMap<BicepValue> = OrderedMap::new();
    metadata.insert("owner".to_string(), BicepValue::String("team".to_string()));
    metadata.insert("count".to_string(), BicepValue::Int(3));
    generate_metadata_display_markdown(&mut output, &metadata);
    assert!(output.starts_with("start\n"));
    assert!(output.contains("owner"));
    assert!(output.contains("team"));
    assert!(output.contains("count"));
    assert!(output.find("owner").unwrap() < output.find("count").unwrap());
}

#[test]
fn formatting_test_format_bicep_type() {
    assert_eq!(format_bicep_type(&BicepType::String), "string");
    assert_eq!(format_bicep_type(&BicepType::Int), "int");
    assert_eq!(format_bicep_type(&BicepType::Bool), "bool");
    assert_eq!(
        format_bicep_type(&BicepType::Array(Box::new(BicepType::String))),
        "string[]"
    );
    assert_eq!(
        format_bicep_type(&BicepType::CustomType("MyType".to_string())),
        "MyType"
    );
    assert_eq!(
        format_bicep_type(&BicepType::Union(vec!["A".to_string(), "B".to_string()])),
        "A | B"
    );
    assert_eq!(format_bicep_type(&BicepType::Object(None)), "object");
    let empty_props = OrderedMap::new();
    assert_eq!(
        format_bicep_type(&BicepType::Object(Some(empty_props))),
        "object"
    );
}

#[test]
fn test_format_bicep_type_with_backticks() {
    assert_eq!(
        format_bicep_type_with_backticks(&BicepType::String),
        "`string`"
    );
    assert_eq!(format_bicep_type_with_backticks(&BicepType::Int), "`int`");
}

#[test]
fn formatting_test_format_bicep_value() {
    assert_eq!(
        format_bicep_value(&BicepValue::String("test".to_string())),
        "test"
    );
    assert_eq!(format_bicep_value(&BicepValue::Int(42)), "42");
    assert_eq!(format_bicep_value(&BicepValue::Bool(true)), "true");
    assert_eq!(
        format_bicep_value(&BicepValue::Identifier("myVar".to_string())),
        "${myVar}"
    );
    let arr = vec![BicepValue::Int(1), BicepValue::Int(2)];
    assert_eq!(format_bicep_value(&BicepValue::Array(arr)), "[1, 2]");

    let mut obj = OrderedMap::new();
    obj.insert("key1".to_string(), BicepValue::String("value1".to_string()));
    obj.insert("key2".to_string(), BicepValue::Int(42));
    let result = format_bicep_value(&BicepValue::Object(obj));
    assert!(result.contains("key1: value1"));
    assert!(result.contains("key2: 42"));
}

#[test]
fn formatting_test_format_bicep_value_with_multiline_string() {
    let multiline = "Line 1\nLine 2\nLine 3".to_string();
    let result = format_bicep_value(&BicepValue::String(multiline));
    assert_eq!(result, "Line 1\nLine 2\nLine 3");
}

#[test]
fn negative_numbers_are_formatted() {
    assert_eq!(format_bicep_value(&BicepValue::Int(-17)), "-17");
    assert_eq!(format_bicep_value(&BicepValue::Int(0)), "0");
}

#[test]
fn test_escape_markdown() {
    assert_eq!(escape_markdown("simple text"), "simple text");
    assert_eq!(escape_markdown("text with *bold*"), "text with \\*bold\\*");
    assert_eq!(escape_markdown("text with [link]"), "text with \\[link\\]");
    assert_eq!(
        escape_markdown("text | with | pipes"),
        "text \\| with \\| pipes"
    );
}

#[test]
fn formatting_test_escape_asciidoc() {
    assert_eq!(escape_asciidoc("simple text"), "simple text");
    assert_eq!(
        escape_asciidoc("text with |pipes|"),
        "text with \\|pipes\\|"
    );
    assert_eq!(
        escape_asciidoc("text with [brackets]"),
        "text with \\[brackets\\]"
    );
    assert_eq!(escape_asciidoc("text with *bold*"), "text with \\*bold\\*");
}
