// Parsing Bicep sources written out in each test.
use bicep_docs::parsing::text_utils::get_node_text;
use bicep_docs::parsing::values::parse_value_node;
use bicep_docs::parsing::{BicepImport, ModuleSource, SyntaxNode};
use bicep_docs::{
    parse_bicep_document, parse_bicep_file, BicepDocument, BicepParserError, BicepType, BicepValue,
};

fn parse(source: &str) -> BicepDocument {
    match parse_bicep_document(source) {
        Ok(d) => d,
        Err(e) => panic!("Failed to parse bicep source: {:?}", e),
    }
}

const PARAMETERS: &str = "
@description('This is a required string parameter')
@minLength(3)
@maxLength(24)
param requiredStringParam string

@secure()
param secureStringParam string

param stringWithDefault string = 'hello'
";

#[test]
fn parameters() {
    let doc = parse(PARAMETERS);
    assert!(!doc.parameters.is_empty(), "No parameters found in the document");
    assert!(doc.parameters.contains_key("requiredStringParam"), "Missing requiredStringParam");
    assert!(doc.parameters.contains_key("secureStringParam"), "Missing secureStringParam");
    assert!(doc.parameters.contains_key("stringWithDefault"), "Missing stringWithDefault");
    let param = doc.parameters.get("requiredStringParam").unwrap();
    assert_eq!(param.description.as_deref(), Some("This is a required string parameter"));
    assert_eq!(param.min_length, Some(3));
    assert_eq!(param.max_length, Some(24));
    assert!(doc.parameters.get("secureStringParam").unwrap().is_secure);
    match &doc.parameters.get("stringWithDefault").unwrap().default_value {
        Some(BicepValue::String(s)) => assert_eq!(s, "hello"),
        other => panic!("unexpected default value {:?}", other),
    }
}

const VARIABLES: &str = "
var simpleVar = 'simple'

@description('A variable with a description')
var describedVar = 42

@export()
var exportedVar = true
";

#[test]
fn variables() {
    let doc = parse(VARIABLES);
    assert!(doc.variables.contains_key("simpleVar"), "Missing simpleVar");
    assert!(doc.variables.contains_key("describedVar"), "Missing describedVar");
    assert!(doc.variables.contains_key("exportedVar"), "Missing exportedVar");
    let described = doc.variables.get("describedVar").unwrap();
    assert_eq!(described.description.as_deref(), Some("A variable with a description"));
    // A `number` node's value is kept as its text.
    match &described.value {
        BicepValue::String(s) => assert_eq!(s, "42"),
        other => panic!("unexpected value {:?}", other),
    }
    assert!(doc.variables.get("exportedVar").unwrap().is_exported);
    assert!(!doc.variables.get("simpleVar").unwrap().is_exported);
}

const OUTPUTS: &str = "
@description('Simple string output')
output stringOutput string = 'value'

@secure()
output secureStringOutput string = 'secret'

@minValue(1)
@maxValue(10)
output constrainedIntOutput int = 5

output intOutput int = 3

output boolOutput bool = true

output customTypeOutput myType = {}
";

#[test]
fn outputs() {
    let doc = parse(OUTPUTS);
    assert!(!doc.outputs.is_empty(), "No outputs found in the document");
    assert!(doc.outputs.contains_key("stringOutput"), "Missing stringOutput");
    assert!(doc.outputs.contains_key("secureStringOutput"), "Missing secureStringOutput");
    assert!(doc.outputs.contains_key("constrainedIntOutput"), "Missing constrainedIntOutput");
    assert_eq!(
        doc.outputs.get("stringOutput").unwrap().description.as_deref(),
        Some("Simple string output")
    );
    assert!(doc.outputs.get("secureStringOutput").unwrap().secure, "Output should be marked as secure");
    let constrained = doc.outputs.get("constrainedIntOutput").unwrap();
    assert!(
        constrained.min_value.is_some() || constrained.max_value.is_some(),
        "Output should have constraints"
    );
    assert_eq!(constrained.min_value, Some(1));
    assert_eq!(constrained.max_value, Some(10));
    assert!(matches!(doc.outputs.get("intOutput").unwrap().output_type, BicepType::Int));
    assert!(matches!(doc.outputs.get("boolOutput").unwrap().output_type, BicepType::Bool));
    assert!(matches!(
        doc.outputs.get("customTypeOutput").unwrap().output_type,
        BicepType::CustomType(_)
    ));
}

const METADATA: &str = "
metadata name = 'Storage template'
metadata description = 'Deploys storage'
metadata count = 3
metadata enabled = true
";

#[test]
fn metadata() {
    let doc = parse(METADATA);
    assert!(!doc.metadata.is_empty(), "No metadata found in the document");
    assert_eq!(doc.name.as_deref(), Some("Storage template"));
    assert_eq!(doc.description.as_deref(), Some("Deploys storage"));
    assert!(matches!(doc.metadata.get("count"), Some(BicepValue::Int(3))));
    assert!(matches!(doc.metadata.get("enabled"), Some(BicepValue::Bool(true))));
}

const TYPES: &str = "
@export()
type myObjectType = {
  name: string
  count: int
}

param settings {
  enabled: bool
}
";

#[test]
fn types() {
    let doc = parse(TYPES);
    let has_complex_parameters =
        (0..doc.parameters.len()).any(|i| matches!(doc.parameters.value_at(i).parameter_type, BicepType::Object(_)));
    assert!(has_complex_parameters, "No complex parameters found in the document");
    let t = doc.types.get("myObjectType").unwrap();
    assert!(t.is_exported, "myObjectType should be exported");
    match &t.definition {
        BicepType::Object(Some(props)) => {
            assert_eq!(props.len(), 2);
            assert!(props.contains_key("name"));
            assert!(matches!(props.get("count").unwrap().parameter_type, BicepType::Int));
        },
        other => panic!("unexpected definition {:?}", other),
    }
}

const FUNCTIONS: &str = "
func simpleFunction() string => 'hello'

@description('Adds one')
@export()
func oneParamFunction(x int) int => x + 1
";

#[test]
fn functions() {
    let doc = parse(FUNCTIONS);
    assert!(doc.functions.contains_key("simpleFunction"), "Missing simpleFunction");
    let f = doc.functions.get("oneParamFunction").unwrap();
    assert_eq!(f.description.as_deref(), Some("Adds one"));
    assert!(f.is_exported);
    assert_eq!(f.arguments.len(), 1);
    assert_eq!(f.arguments[0].name, "x");
    assert!(matches!(f.arguments[0].argument_type, BicepType::Int));
    assert!(matches!(f.return_type, BicepType::Int));
    assert!(!doc.functions.get("simpleFunction").unwrap().is_exported);
}

const RESOURCES: &str = "
resource storageAccount 'Microsoft.Storage/storageAccounts@2023-01-01' = {
  name: 'mystorage'
  location: 'westeurope'
}

@description('Virtual network resource')
resource vnet 'Microsoft.Network/virtualNetworks@2023-04-01' = {
  name: 'myvnet'
}

resource existingStorage 'Microsoft.Storage/storageAccounts@2023-01-01' existing = {
  name: 'other'
}
";

#[test]
fn resources() {
    let doc = parse(RESOURCES);
    assert!(doc.resources.contains_key("storageAccount"), "Missing storageAccount resource");
    let storage = doc.resources.get("storageAccount").unwrap();
    assert_eq!(storage.resource_type, "Microsoft.Storage/storageAccounts");
    assert_eq!(storage.api_version, "2023-01-01");
    assert_eq!(
        doc.resources.get("vnet").unwrap().description.as_deref(),
        Some("Virtual network resource")
    );
    assert!(doc.resources.get("existingStorage").unwrap().existing);
    assert!(!storage.existing);
}

const MODULES: &str = "
module localModule './storage.bicep' = {
  name: 'storageDeploy'
}
";

#[test]
fn modules() {
    let doc = parse(MODULES);
    assert!(!doc.modules.is_empty(), "No modules found in the document");
    let m = doc.modules.get("localModule").unwrap();
    match &m.source {
        ModuleSource::LocalPath(p) => assert_eq!(p, "./storage.bicep"),
        other => panic!("unexpected source {:?}", other),
    }
    assert!(m.condition.is_none());
}

const IMPORTS: &str = "
import 'az@1.0.0'
import * as shared from 'shared.bicep'
import { myType, other as renamed } from 'types.bicep'
";

#[test]
fn imports() {
    let doc = parse(IMPORTS);
    assert_eq!(doc.imports.len(), 3);
    match &doc.imports[0] {
        BicepImport::Namespace { namespace, version } => {
            assert_eq!(namespace, "az");
            assert_eq!(version.as_deref(), Some("1.0.0"));
        },
        other => panic!("unexpected import {:?}", other),
    }
    match &doc.imports[1] {
        BicepImport::Module { wildcard_alias, symbols, .. } => {
            assert_eq!(wildcard_alias.as_deref(), Some("shared"));
            assert!(symbols.is_none());
        },
        other => panic!("unexpected import {:?}", other),
    }
    match &doc.imports[2] {
        BicepImport::Module { symbols: Some(symbols), wildcard_alias, .. } => {
            assert!(wildcard_alias.is_none());
            assert_eq!(symbols.len(), 2);
            assert_eq!(symbols[0].name, "myType");
            assert!(symbols[0].alias.is_none());
            assert_eq!(symbols[1].name, "other");
            assert_eq!(symbols[1].alias.as_deref(), Some("renamed"));
        },
        other => panic!("unexpected import {:?}", other),
    }
}

#[test]
fn parse_bicep_file_reads_the_syntax_tree() {
    let tree = parse_bicep_file("param a string\n").expect("the grammar parses");
    assert_eq!(tree.kind, "infrastructure");
    assert!(!tree.children.is_empty());
}

#[test]
fn empty_source_gives_an_empty_document() {
    let doc = parse("");
    assert!(doc.parameters.is_empty());
    assert!(doc.resources.is_empty());
    assert!(doc.name.is_none());
}

#[test]
fn integer_beyond_i64_is_no_value() {
    let node = SyntaxNode::leaf("integer", "99999999999999999999");
    assert!(matches!(parse_value_node(&node), Ok(None)));
    let small = SyntaxNode::leaf("integer", "42");
    assert!(matches!(parse_value_node(&small), Ok(Some(BicepValue::Int(42)))));
}

#[test]
fn document_with_an_integer_beyond_i64_still_parses() {
    let doc = parse("param big int = 99999999999999999999\nparam small int = 7\n");
    assert!(doc.parameters.contains_key("small"));
}

#[test]
fn module_source_with_a_drive_letter_is_an_error() {
    assert!(matches!(
        ModuleSource::parse("C:/modules/main.bicep"),
        Err(BicepParserError::ParseError(_))
    ));
}

#[test]
fn module_with_an_unreadable_source_is_left_out() {
    let doc = parse(
        "module bad 'C:/modules/main.bicep' = {\n  name: 'x'\n}\nmodule good './main.bicep' = {\n  name: 'y'\n}\n",
    );
    assert!(!doc.modules.contains_key("bad"));
    assert!(doc.modules.contains_key("good"));
}

#[test]
fn metadata_name_given_twice_is_read_once_and_left_out() {
    let doc = parse("metadata name = 'first'\nmetadata name = 'second'\nmetadata owner = 'me'\n");
    assert_eq!(doc.name.as_deref(), Some("second"));
    assert!(!doc.metadata.contains_key("name"));
    assert!(!doc.metadata.contains_key("description"));
    assert!(doc.metadata.contains_key("owner"));
}

#[test]
fn strings_with_a_bar_and_a_quote_are_read() {
    let doc = parse("var x = '\"|'\noutput o string = '\"|'\n");
    assert!(doc.variables.contains_key("x"));
    assert!(doc.outputs.contains_key("o"));
}

#[test]
fn union_types_are_still_read() {
    let doc = parse("type choice = 'a' | 'b'\nparam pick 'x' | 'y'\n");
    assert!(doc.types.contains_key("choice"));
    assert!(doc.parameters.contains_key("pick"));
}

#[test]
fn module_sources_display_as_written() {
    for s in [
        "br:mcr.microsoft.com/bicep/storage:v1.0",
        "br/public:avm/res/storage:1.0.0",
        "ts/CoreSpecs:storage:v1",
        "ts:00000000-0000-0000-0000-000000000000/rg/spec:v2",
        "./storage.bicep",
    ] {
        let m = ModuleSource::parse(s).unwrap();
        assert_eq!(m.to_display_string(), s);
    }
    match ModuleSource::parse("br:mcr.microsoft.com/bicep/storage:v1.0").unwrap() {
        ModuleSource::Registry { registry_fqdn, path, version, alias } => {
            assert_eq!(registry_fqdn.as_deref(), Some("mcr.microsoft.com"));
            assert_eq!(path, "bicep/storage");
            assert_eq!(version, "v1.0");
            assert!(alias.is_none());
        },
        other => panic!("unexpected source {:?}", other),
    }
}

#[test]
fn module_declaration_reads_its_source() {
    let doc = parse("@description('Storage')\nmodule stor 'br:mcr.microsoft.com/bicep/storage:v1.0' = {\n  name: 'x'\n}\n");
    let m = doc.modules.get("stor").unwrap();
    assert_eq!(m.source.to_display_string(), "br:mcr.microsoft.com/bicep/storage:v1.0");
    assert_eq!(m.description.as_deref(), Some("Storage"));
}

#[test]
fn node_text_is_the_text_of_its_byte_range() {
    let src = "param a string";
    let mut parser = tree_sitter::Parser::new();
    parser.set_language(&tree_sitter_bicep::LANGUAGE.into()).unwrap();
    let tree = parser.parse(src, None).unwrap();
    let root = tree.root_node();
    assert_eq!(get_node_text(&root, src), src);
    let decl = root.child(0).unwrap();
    let first = decl.child(0).unwrap();
    assert_eq!(get_node_text(&first, src), "param");
}
