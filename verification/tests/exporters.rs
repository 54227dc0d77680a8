use bicep_docs::exports::{asciidoc, markdown};
use bicep_docs::ordered_map::OrderedMap;
use bicep_docs::parsing::BicepParameter;
use bicep_docs::{BicepDocument, BicepType, BicepValue};

fn document_with_parameter(description: Option<&str>, default: Option<BicepValue>) -> BicepDocument {
    let parameter = BicepParameter {
        parameter_type: BicepType::String,
        description: Some("Test parameter".to_string()),
        default_value: default,
        ..Default::default()
    };
    let mut document = BicepDocument {
        name: Some("Test Template".to_string()),
        description: description.map(|d| d.to_string()),
        ..Default::default()
    };
    document.parameters.insert("testParam".to_string(), parameter);
    document
}

#[test]
fn markdown_test_export_to_string_basic() {
    let document = BicepDocument {
        name: Some("Test Template".to_string()),
        description: Some("A test template for unit testing".to_string()),
        target_scope: Some("resourceGroup".to_string()),
        ..Default::default()
    };
    let markdown = markdown::export_to_string(&document, true, false);
    assert!(markdown.contains("# Test Template"));
    assert!(markdown.contains("A test template for unit testing"));
    assert!(markdown.contains("resourceGroup"));
    assert!(markdown.contains("## Parameters"));
    assert!(markdown.contains("*No parameters defined*"));
    assert!(markdown.contains("## Resources"));
    assert!(markdown.contains("*No resources defined*"));
}

#[test]
fn markdown_test_export_to_string_with_parameters() {
    let document =
        document_with_parameter(None, Some(BicepValue::String("default".to_string())));
    let markdown = markdown::export_to_string(&document, true, false);
    assert!(markdown.contains("## Parameters"));
    assert!(markdown.contains("### `testParam`"));
    assert!(markdown.contains("Test parameter"));
    assert!(markdown.contains("default"));
}

#[test]
fn markdown_test_export_to_string_with_exclude_empty() {
    let document = document_with_parameter(Some("A test template"), None);
    let result = markdown::export_to_string(&document, true, true);
    assert!(result.contains("# Test Template"));
    assert!(result.contains("## Parameters"));
    assert!(result.contains("### `testParam`"));
    assert!(!result.contains("## Resources"));
    assert!(!result.contains("*No resources defined*"));
    assert!(!result.contains("## Variables"));
    assert!(!result.contains("*No variables defined*"));
    assert!(!result.contains("## Modules"));
    assert!(!result.contains("*No modules defined*"));
    assert!(!result.contains("## Outputs"));
    assert!(!result.contains("*No outputs defined*"));
}

#[test]
fn markdown_parameter_block_is_exact() {
    let mut p = BicepParameter {
        parameter_type: BicepType::Int,
        min_value: Some(0),
        max_value: Some(100),
        default_value: Some(BicepValue::Int(100)),
        ..Default::default()
    };
    p.is_secure = false;
    let mut document = BicepDocument::default();
    document.parameters.insert("count".to_string(), p);
    let out = markdown::export_to_string(&document, true, true);
    let expected = "# Bicep Template\n\n## Parameters\n\n### `count`\n\n\
**Type:** `int`  \n**Nullable:** ❌ No  \n**Secure:** ❌ No  \n**Sealed:** ❌ No  \n\
\n**Constraints**\n\n**Minimum Value:** `0`  \n**Maximum Value:** `100`  \n\
\n**Default Value**\n\n```bicep\n100\n```\n\n";
    assert_eq!(out, expected);
}

#[test]
fn markdown_empty_document_lists_every_section() {
    let out = markdown::export_to_string(&BicepDocument::default(), false, false);
    assert_eq!(
        out,
        "# Bicep Template\n\n## Imports\n\nNo imports defined.\n\n## Types\n\n*No custom types defined*\n\n\
## Functions\n\n*No functions defined*\n\n## Parameters\n\n*No parameters defined*\n\n\
## Variables\n\n*No variables defined*\n\n## Resources\n\n*No resources defined*\n\n\
## Modules\n\n*No modules defined*\n\n## Outputs\n\n*No outputs defined*\n\n"
    );
    let compact = markdown::export_to_string(&BicepDocument::default(), false, true);
    assert_eq!(compact, "# Bicep Template\n\n");
}

#[test]
fn markdown_nested_object_properties() {
    let mut inner = OrderedMap::new();
    inner.insert(
        "key1".to_string(),
        BicepParameter { parameter_type: BicepType::String, ..Default::default() },
    );
    let mut props = OrderedMap::new();
    props.insert(
        "objectProperty".to_string(),
        BicepParameter { parameter_type: BicepType::Object(Some(inner)), ..Default::default() },
    );
    let mut document = BicepDocument::default();
    document.parameters.insert(
        "obj".to_string(),
        BicepParameter { parameter_type: BicepType::Object(Some(props)), ..Default::default() },
    );
    let out = markdown::export_to_string(&document, true, true);
    assert!(out.contains("**Object Definition**\n\n#### `objectProperty`"));
    assert!(out.contains("##### `key1`"));
}

#[test]
fn asciidoc_test_export_to_string_basic() {
    let document = BicepDocument {
        name: Some("Test Template".to_string()),
        description: Some("A test template for unit testing".to_string()),
        target_scope: Some("resourceGroup".to_string()),
        ..Default::default()
    };
    let asciidoc = asciidoc::export_to_string(&document, true);
    assert!(asciidoc.contains("= Test Template"));
    assert!(asciidoc.contains("A test template for unit testing"));
    assert!(asciidoc.contains("resourceGroup"));
}

#[test]
fn asciidoc_test_export_to_string_with_parameters() {
    let document =
        document_with_parameter(None, Some(BicepValue::String("default".to_string())));
    let asciidoc = asciidoc::export_to_string(&document, true);
    assert!(asciidoc.contains("== Parameters"));
    assert!(asciidoc.contains("=== `testParam`"));
    assert!(asciidoc.contains("Test parameter"));
    assert!(asciidoc.contains("default"));
}

#[test]
fn asciidoc_test_escape_asciidoc() {
    let text = "test | with * special _ characters [and] `code` #heading";
    let escaped = asciidoc::escape_asciidoc(text);
    assert_eq!(
        escaped,
        "test | with \\* special \\_ characters [and] `code` \\#heading"
    );
}

#[test]
fn asciidoc_escape_turns_newlines_into_breaks() {
    assert_eq!(asciidoc::escape_asciidoc("a\nb"), "a +\nb");
    assert_eq!(asciidoc::escape_asciidoc("a +\nb\nc"), "a +\nb\nc");
}

#[test]
fn asciidoc_test_format_bicep_value() {
    assert_eq!(
        asciidoc::format_bicep_value(&BicepValue::String("test".to_string())),
        "test"
    );
    assert_eq!(asciidoc::format_bicep_value(&BicepValue::Int(42)), "42");
    assert_eq!(asciidoc::format_bicep_value(&BicepValue::Bool(true)), "true");
    assert_eq!(
        asciidoc::format_bicep_value(&BicepValue::Identifier("myVar".to_string())),
        "${myVar}"
    );
}

#[test]
fn asciidoc_test_format_bicep_type() {
    assert_eq!(asciidoc::format_bicep_type(&BicepType::String), "string");
    assert_eq!(asciidoc::format_bicep_type(&BicepType::Int), "int");
    assert_eq!(asciidoc::format_bicep_type(&BicepType::Bool), "bool");
    assert_eq!(
        asciidoc::format_bicep_type(&BicepType::Array(Box::new(BicepType::String))),
        "string[]"
    );
    assert_eq!(
        asciidoc::format_bicep_type(&BicepType::CustomType("MyType".to_string())),
        "MyType"
    );
    assert_eq!(
        asciidoc::format_bicep_type(&BicepType::Union(vec!["A".to_string(), "B".to_string()])),
        "A \\| B"
    );
    assert_eq!(asciidoc::format_bicep_type(&BicepType::Object(None)), "object");
    let empty_props = OrderedMap::new();
    assert_eq!(
        asciidoc::format_bicep_type(&BicepType::Object(Some(empty_props))),
        "object"
    );
}

#[test]
fn asciidoc_test_format_bicep_value_object() {
    let mut obj = OrderedMap::new();
    obj.insert("key1".to_string(), BicepValue::String("value1".to_string()));
    obj.insert("key2".to_string(), BicepValue::Int(42));
    let result = asciidoc::format_bicep_value(&BicepValue::Object(obj));
    assert!(result.contains("key1: value1"));
    assert!(result.contains("key2: 42"));
}

#[test]
fn asciidoc_test_format_bicep_type_union_formats() {
    let union_type = BicepType::Union(vec!["A".to_string(), "B".to_string()]);
    assert_eq!(asciidoc::format_bicep_type(&union_type), "A \\| B");
}

#[test]
fn asciidoc_test_format_bicep_value_with_multiline_string() {
    let multiline = BicepValue::String("line1\nline2\nline3".to_string());
    let result = asciidoc::format_bicep_value(&multiline);
    assert_eq!(result, "line1\nline2\nline3");
}

#[test]
fn asciidoc_parameter_table_is_exact() {
    let mut document = BicepDocument::default();
    document.parameters.insert(
        "flag".to_string(),
        BicepParameter { parameter_type: BicepType::Bool, ..Default::default() },
    );
    let out = asciidoc::export_to_string(&document, false);
    assert!(out.contains(
        "=== `flag`\n\n.Properties\n[%autowidth,cols=\"h,1\",frame=none]\n|===\n\
| Type\nm| bool\n\n| Nullable\n| No\n\n| Secure\n| No\n\n| Sealed\n| No\n\n|===\n\n"
    ));
    assert!(out.starts_with("= Bicep Template\n:noheader:\n"));
    assert!(out.contains("== Imports\n\n_No imports defined_\n\n"));
}

#[test]
fn markdown_test_format_bicep_value() {
    assert_eq!(BicepValue::String("test".to_string()).to_display_string(), "test");
    assert_eq!(BicepValue::Int(42).to_display_string(), "42");
    assert_eq!(BicepValue::Bool(true).to_display_string(), "true");
    assert_eq!(
        BicepValue::Identifier("myVar".to_string()).to_display_string(),
        "${myVar}"
    );
    assert_eq!(
        BicepValue::String("line1\nline2".to_string()).to_display_string(),
        "line1\nline2"
    );
    assert_eq!(
        BicepValue::String("Has\\backslash".to_string()).to_display_string(),
        "Has\\backslash"
    );
}

#[test]
fn markdown_test_format_bicep_type() {
    assert_eq!(BicepType::String.to_display_string(), "string");
    assert_eq!(BicepType::Int.to_display_string(), "int");
    assert_eq!(BicepType::Bool.to_display_string(), "bool");
    assert_eq!(
        BicepType::Array(Box::new(BicepType::String)).to_display_string(),
        "string[]"
    );
    assert_eq!(
        BicepType::CustomType("MyType".to_string()).to_display_string(),
        "MyType"
    );
    assert_eq!(
        BicepType::Union(vec!["A".to_string(), "B".to_string()]).to_display_string(),
        "A | B"
    );
    assert_eq!(BicepType::Object(None).to_display_string(), "object");
    let empty_props = OrderedMap::new();
    assert_eq!(BicepType::Object(Some(empty_props)).to_display_string(), "object");
    let mut props = OrderedMap::new();
    props.insert("name".to_string(), BicepParameter::default());
    assert_eq!(BicepType::Object(Some(props)).to_display_string(), "object");
}

#[test]
fn markdown_test_format_bicep_value_object() {
    let empty_obj = OrderedMap::new();
    assert_eq!(BicepValue::Object(empty_obj).to_display_string(), "{}");
    let mut obj = OrderedMap::new();
    obj.insert("key1".to_string(), BicepValue::String("value1".to_string()));
    obj.insert("key2".to_string(), BicepValue::Int(42));
    assert_eq!(
        BicepValue::Object(obj).to_display_string(),
        "{ key1: value1, key2: 42 }"
    );
    let mut obj_ml = OrderedMap::new();
    obj_ml.insert("text".to_string(), BicepValue::String("line1\nline2".to_string()));
    assert_eq!(
        BicepValue::Object(obj_ml).to_display_string(),
        "{ text: line1\nline2 }"
    );
}

#[test]
fn markdown_test_format_bicep_type_union_formats() {
    let union_type = BicepType::Union(vec!["string".to_string(), "int".to_string()]);
    assert_eq!(union_type.to_display_string(), "string | int");
}

#[test]
fn library_string_exports_forward_to_the_exporters() {
    let document = document_with_parameter(Some("Forwarded"), None);
    assert_eq!(
        bicep_docs::export_bicep_document_to_markdown_string(&document, false, true),
        markdown::export_to_string(&document, false, true)
    );
    let adoc = bicep_docs::export_bicep_document_to_asciidoc_string(&document, true, true);
    assert_eq!(adoc, asciidoc::export_to_string(&document, true));
    assert_eq!(adoc, bicep_docs::export_bicep_document_to_asciidoc_string(&document, true, false));
}

#[test]
fn parsed_source_exports_to_markdown() {
    let source = "metadata name = 'Demo'\n@description('The location')\nparam location string = 'westeurope'\n";
    let document = bicep_docs::parse_bicep_document(source).expect("the source parses");
    let md = markdown::export_to_string(&document, false, true);
    assert!(md.starts_with("# Demo"));
    assert!(md.contains("### `location`"));
    assert!(md.contains("The location"));
    assert!(!md.contains("## Resources"));
}
