// The syntax tree as the AST export tool presents it.
use bicep_docs::ast::{
    count_field_names, count_node_types, count_nodes, count_nodes_by_line, filter_by_field_name,
    filter_nodes, filter_nodes_by_line, find_nodes_by_path_pattern, generate_brief_structure,
    generate_node_paths, limit_nodes, max_depth, node_text, parse_ast, rank_by_count, to_simple_tree,
    visualize_tree_structure, AstNode, Position,
};

fn node(kind: &str, field: Option<&str>, rows: (usize, usize), text: &str, children: Vec<AstNode>) -> AstNode {
    AstNode {
        kind: kind.to_string(),
        field_name: field.map(|f| f.to_string()),
        named: true,
        start_position: Position { row: rows.0, column: 0 },
        end_position: Position { row: rows.1, column: 0 },
        start_byte: 0,
        end_byte: text.len(),
        text: text.to_string(),
        path: None,
        children,
    }
}

// infrastructure
//   parameter_declaration            (row 0)
//     name: identifier "a"
//     type: type "string"
//   variable_declaration             (row 1)
//     name: identifier "b"
//     value: number "1"
fn sample() -> AstNode {
    node(
        "infrastructure",
        None,
        (0, 2),
        "param a string\nvar b = 1\n",
        vec![
            node(
                "parameter_declaration",
                None,
                (0, 0),
                "param a string",
                vec![
                    node("identifier", Some("name"), (0, 0), "a", vec![]),
                    node("type", Some("type"), (0, 0), "string", vec![]),
                ],
            ),
            node(
                "variable_declaration",
                None,
                (1, 1),
                "var b = 1",
                vec![
                    node("identifier", Some("name"), (1, 1), "b", vec![]),
                    node("number", Some("value"), (1, 1), "1", vec![]),
                ],
            ),
        ],
    )
}

fn kinds(n: &AstNode) -> Vec<String> {
    let mut out = vec![n.kind.clone()];
    for c in &n.children {
        out.extend(kinds(c));
    }
    out
}

#[test]
fn counts_nodes_and_depth() {
    let tree = sample();
    assert_eq!(count_nodes(&tree), 7);
    assert_eq!(max_depth(&tree), 3);
    assert_eq!(count_nodes(&node("leaf", None, (0, 0), "", vec![])), 1);
    assert_eq!(max_depth(&node("leaf", None, (0, 0), "", vec![])), 1);
}

#[test]
fn line_filter_keeps_nodes_spanning_the_line() {
    let tree = sample();
    let filtered = filter_nodes_by_line(&tree, 1).expect("the root spans line 1");
    assert_eq!(
        kinds(&filtered),
        vec!["infrastructure", "variable_declaration", "identifier", "number"]
    );
    assert!(filter_nodes_by_line(&tree, 5).is_none());
}

#[test]
fn field_filter_keeps_the_way_to_the_field() {
    let tree = sample();
    let filtered = filter_by_field_name(&tree, "value").expect("one node has the field");
    assert_eq!(kinds(&filtered), vec!["infrastructure", "variable_declaration", "number"]);
    assert!(filter_by_field_name(&tree, "missing").is_none());
}

#[test]
fn type_and_text_filter() {
    let tree = sample();
    // A type filter alone keeps every node.
    assert_eq!(count_nodes(&filter_nodes(&tree, Some("identifier"), None)), 7);
    // Identifiers whose text holds "b": the parameter's children go.
    let filtered = filter_nodes(&tree, Some("identifier"), Some("b"));
    assert_eq!(
        kinds(&filtered),
        vec!["infrastructure", "parameter_declaration", "variable_declaration", "identifier", "number"]
    );
    // Nothing matches both: only the root is left.
    let none = filter_nodes(&tree, Some("identifier"), Some("zz"));
    assert_eq!(kinds(&none), vec!["infrastructure"]);
}

#[test]
fn limit_takes_the_first_nodes_in_preorder() {
    let tree = sample();
    let mut count = 0usize;
    let limited = limit_nodes(&tree, 3, &mut count).expect("the root is taken");
    assert_eq!(kinds(&limited), vec!["infrastructure", "parameter_declaration", "identifier"]);
    assert_eq!(count, 3);
    let mut all = 0usize;
    let whole = limit_nodes(&tree, 0, &mut all).expect("no limit");
    assert_eq!(count_nodes(&whole), 7);
    assert_eq!(all, 7);
    let mut full = 3usize;
    assert!(limit_nodes(&tree, 3, &mut full).is_none());
}

#[test]
fn node_paths_name_fields() {
    let mut tree = sample();
    generate_node_paths(&mut tree, "");
    assert_eq!(tree.path.as_deref(), Some("infrastructure"));
    assert_eq!(tree.children[0].path.as_deref(), Some("infrastructure.parameter_declaration"));
    assert_eq!(
        tree.children[0].children[0].path.as_deref(),
        Some("infrastructure.parameter_declaration:name.identifier")
    );
}

#[test]
fn path_pattern_search() {
    let tree = sample();
    let found = find_nodes_by_path_pattern(&tree, "variable_declaration/number");
    assert_eq!(found.len(), 1);
    assert_eq!(found[0].text, "1");
    let ids = find_nodes_by_path_pattern(&tree, "identifier");
    assert_eq!(ids.len(), 2);
    assert!(find_nodes_by_path_pattern(&tree, "output_declaration").is_empty());
}

#[test]
fn tallies_in_order_of_first_occurrence() {
    let tree = sample();
    let types = count_node_types(&tree);
    let got: Vec<(String, usize)> =
        (0..types.len()).map(|i| (types.key_at(i).clone(), *types.value_at(i))).collect();
    assert_eq!(
        got,
        vec![
            ("infrastructure".to_string(), 1),
            ("parameter_declaration".to_string(), 1),
            ("identifier".to_string(), 2),
            ("type".to_string(), 1),
            ("variable_declaration".to_string(), 1),
            ("number".to_string(), 1),
        ]
    );
    let fields = count_field_names(&tree);
    assert_eq!(fields.len(), 3);
    assert_eq!(fields.get("name"), Some(&2));
    assert_eq!(fields.get("type"), Some(&1));
    assert_eq!(fields.get("value"), Some(&1));
    assert_eq!(count_nodes_by_line(&tree), vec![(0, 4), (1, 3)]);
}

#[test]
fn simple_tree_counts_lines_from_one() {
    let tree = sample();
    let simple = to_simple_tree(&tree, true);
    assert_eq!(simple.line, 1);
    assert_eq!(simple.children[1].line, 2);
    assert_eq!(simple.children[1].children[1].field.as_deref(), Some("value"));
    assert_eq!(simple.children[1].children[1].text.as_deref(), Some("1"));
    assert!(to_simple_tree(&tree, false).text.is_none());
}

#[test]
fn structure_views() {
    let tree = sample();
    let mut lines: Vec<String> = Vec::new();
    visualize_tree_structure(&mut lines, &tree, 0, 2, &[], true);
    assert_eq!(
        lines,
        vec![
            "└── infrastructure (1)",
            "    ├── parameter_declaration (1)",
            "    └── variable_declaration (2)",
        ]
    );
    let brief = generate_brief_structure(&tree);
    assert_eq!(brief[0], "\nBrief AST Structure:");
    assert_eq!(brief[2], "Root: infrastructure (7 nodes)");
    assert_eq!(brief[3], "├── parameter_declaration (Line 1)");
    assert_eq!(brief[4], "└── variable_declaration (Line 2)");
}

#[test]
fn node_text_in_compact_and_full_mode() {
    let source = "param storageAccountName string = 'mystorageaccount'";
    assert_eq!(node_text(source, 0, 5, true, false), "param");
    assert_eq!(node_text(source, 0, 5, true, true), "param");
    assert_eq!(node_text(source, 0, 30, true, true), "... (30 bytes)");
    assert_eq!(node_text(source, 0, 30, false, true), "");
    assert_eq!(node_text(source, 0, 30, false, false), &source[0..30]);
    assert_eq!(node_text(source, 5, 5, true, false), "");
    assert_eq!(node_text(source, 40, 99, false, false), "");
}

#[test]
fn parse_ast_reads_positions_and_text() {
    let source = "param a string\nvar b = 1\n";
    let tree = parse_ast(source, false).expect("the grammar parses the source");
    assert_eq!(tree.kind, "infrastructure");
    assert!(tree.field_name.is_none());
    assert!(tree.path.is_none());
    assert_eq!(tree.start_byte, 0);
    assert_eq!(tree.text, &source[tree.start_byte..tree.end_byte]);
    assert!(tree.children.len() >= 2);
    let first = &tree.children[0];
    assert_eq!(first.start_position.row, 0);
    assert!(first.text.starts_with("param a"));
    let compact = parse_ast(source, true).expect("the grammar parses the source");
    assert!(compact.text.starts_with("... ("));
    assert!(compact.text.ends_with(" bytes)"));
}

#[test]
fn ranking_by_count_is_a_stable_descending_sort() {
    let entries = vec![
        ("a".to_string(), 2usize),
        ("b".to_string(), 5),
        ("c".to_string(), 2),
        ("d".to_string(), 7),
        ("e".to_string(), 5),
    ];
    let ranked = rank_by_count(entries);
    let names: Vec<&str> = ranked.iter().map(|(k, _)| k.as_str()).collect();
    assert_eq!(names, vec!["d", "b", "e", "a", "c"]);
    let lines = rank_by_count(vec![(0usize, 1usize), (1, 3), (2, 3)]);
    assert_eq!(lines, vec![(1, 3), (2, 3), (0, 1)]);
    assert!(rank_by_count(Vec::<(usize, usize)>::new()).is_empty());
}
