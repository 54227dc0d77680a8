use bicep_docs::exports::yaml::{
    convert_to_block_scalar, improve_multiline_string_representation, unescape_yaml_string,
};

#[test]
fn test_convert_to_block_scalar_multiline() {
    let content = "Line 1\\nLine 2\\nLine 3";
    let key_part = "  description:";
    let result = convert_to_block_scalar(content, key_part);
    let expected = "  description: |-\n    Line 1\n    Line 2\n    Line 3";
    assert_eq!(result, expected);
}

#[test]
fn test_convert_to_block_scalar_single_line() {
    let content = "Single line description";
    let key_part = "  description:";
    let result = convert_to_block_scalar(content, key_part);
    let expected = "  description: \"Single line description\"";
    assert_eq!(result, expected);
}

#[test]
fn test_improve_multiline_string_representation() {
    let yaml = r#"field: "Line 1\nLine 2\nLine 3""#;
    let result = improve_multiline_string_representation(yaml);
    let expected = "field: |-\n  Line 1\n  Line 2\n  Line 3";
    assert_eq!(result, expected);
}

#[test]
fn plain_yaml_lines_are_kept() {
    let yaml = "name: Test\nitems:\n  - a\n  - b";
    assert_eq!(improve_multiline_string_representation(yaml), yaml);
}

#[test]
fn yaml_escapes_are_undone() {
    assert_eq!(unescape_yaml_string("a\\\"b\\\\c\\td"), "a\"b\\c\td");
}
