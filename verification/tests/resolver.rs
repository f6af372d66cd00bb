use m3l::imports::detect_circular_imports;
use m3l::parser::parse_string;
use m3l::resolver::resolve;

#[test]
fn resolve_single_file() {
    let parsed = parse_string(
        "## User\n- id: identifier @pk\n- name: string",
        "test.m3l.md",
    );
    let ast = resolve(&[parsed], None);
    assert_eq!(ast.models.len(), 1);
    assert_eq!(ast.models[0].name, "User");
    assert!(ast.errors.is_empty());
}

#[test]
fn resolve_multiple_files() {
    let f1 = parse_string("## User\n- id: identifier", "a.m3l.md");
    let f2 = parse_string("## Product\n- id: identifier", "b.m3l.md");
    let ast = resolve(&[f1, f2], None);
    assert_eq!(ast.models.len(), 2);
    assert_eq!(ast.sources.len(), 2);
}

#[test]
fn resolve_inheritance() {
    let input = "## Timestampable ::interface\n- created_at: timestamp\n- updated_at: timestamp\n\n## User : Timestampable\n- id: identifier";
    let parsed = parse_string(input, "test.m3l.md");
    let ast = resolve(&[parsed], None);

    assert_eq!(ast.models.len(), 1);
    assert_eq!(ast.models[0].name, "User");
    // Should have inherited fields + own field
    assert_eq!(ast.models[0].fields.len(), 3);
    assert_eq!(ast.models[0].fields[0].name, "created_at");
    assert_eq!(ast.models[0].fields[1].name, "updated_at");
    assert_eq!(ast.models[0].fields[2].name, "id");
}

#[test]
fn resolve_duplicate_model() {
    let f1 = parse_string("## User\n- id: identifier", "a.m3l.md");
    let f2 = parse_string("## User\n- name: string", "b.m3l.md");
    let ast = resolve(&[f1, f2], None);
    assert!(ast.errors.iter().any(|e| e.code == "M3L-E005"));
}

#[test]
fn resolve_unresolved_parent() {
    let parsed = parse_string("## User : NonExistent\n- id: identifier", "test.m3l.md");
    let ast = resolve(&[parsed], None);
    assert!(ast.errors.iter().any(|e| e.code == "M3L-E007"));
}

#[test]
fn resolve_namespace_as_project() {
    let parsed = parse_string(
        "# Namespace: sample.ecommerce\n## User\n- id: identifier",
        "test.m3l.md",
    );
    let ast = resolve(&[parsed], None);
    assert_eq!(ast.project.name.as_deref(), Some("sample.ecommerce"));
}

#[test]
fn resolve_attribute_registry_tagging() {
    let input = "## custom_flag ::attribute\n- target: [field]\n- type: boolean\n\n## User\n- id: identifier @custom_flag";
    let parsed = parse_string(input, "test.m3l.md");
    let ast = resolve(&[parsed], None);
    assert_eq!(ast.attribute_registry.len(), 1);
    // The id field should have @custom_flag tagged as isRegistered
    let id_field = &ast.models[0].fields[0];
    let cf_attr = id_field.attributes.iter().find(|a| a.name == "custom_flag");
    assert!(cf_attr.is_some());
    assert_eq!(cf_attr.unwrap().is_registered, Some(true));
}

#[test]
fn detect_ambiguous_cross_namespace_e008() {
    let f1 = parse_string(
        "# Namespace: sales\n## Product\n- id: identifier",
        "sales.m3l.md",
    );
    let f2 = parse_string(
        "# Namespace: inventory\n## Product\n- id: identifier",
        "inventory.m3l.md",
    );
    let ast = resolve(&[f1, f2], None);
    assert!(
        ast.errors.iter().any(|e| e.code == "M3L-E008"),
        "Expected E008 for same name 'Product' in different namespaces"
    );
}

#[test]
fn no_e008_same_namespace() {
    // Same name in same namespace → E005 (duplicate), not E008
    let f1 = parse_string(
        "# Namespace: sales\n## Product\n- id: identifier",
        "a.m3l.md",
    );
    let f2 = parse_string("# Namespace: sales\n## Product\n- name: string", "b.m3l.md");
    let ast = resolve(&[f1, f2], None);
    assert!(ast.errors.iter().any(|e| e.code == "M3L-E005"));
    assert!(
        !ast.errors.iter().any(|e| e.code == "M3L-E008"),
        "E008 should not fire for same namespace"
    );
}

#[test]
fn no_e008_unique_names() {
    let f1 = parse_string(
        "# Namespace: sales\n## Order\n- id: identifier",
        "sales.m3l.md",
    );
    let f2 = parse_string(
        "# Namespace: inventory\n## Product\n- id: identifier",
        "inventory.m3l.md",
    );
    let ast = resolve(&[f1, f2], None);
    assert!(
        !ast.errors.iter().any(|e| e.code == "M3L-E008"),
        "No E008 when names are unique across namespaces"
    );
}

#[test]
fn detect_no_circular_imports() {
    let file_imports = vec![
        ("a.m3l.md".to_string(), vec!["b.m3l.md".to_string()]),
        ("b.m3l.md".to_string(), vec!["c.m3l.md".to_string()]),
        ("c.m3l.md".to_string(), vec![]),
    ];
    let errors = detect_circular_imports(&file_imports);
    assert!(errors.is_empty(), "Should not detect any cycles");
}

#[test]
fn detect_simple_circular_import() {
    let file_imports = vec![
        ("a.m3l.md".to_string(), vec!["b.m3l.md".to_string()]),
        ("b.m3l.md".to_string(), vec!["a.m3l.md".to_string()]),
    ];
    let errors = detect_circular_imports(&file_imports);
    assert!(!errors.is_empty(), "Should detect circular import");
    assert!(errors.iter().any(|e| e.code == "M3L-E003"));
    assert!(errors[0].message.contains("Circular import detected"));
}

#[test]
fn detect_three_way_circular_import() {
    let file_imports = vec![
        ("a.m3l.md".to_string(), vec!["b.m3l.md".to_string()]),
        ("b.m3l.md".to_string(), vec!["c.m3l.md".to_string()]),
        ("c.m3l.md".to_string(), vec!["a.m3l.md".to_string()]),
    ];
    let errors = detect_circular_imports(&file_imports);
    assert!(!errors.is_empty(), "Should detect 3-way cycle");
    assert!(errors.iter().any(|e| e.code == "M3L-E003"));
}

#[test]
fn detect_diamond_no_cycle() {
    // Diamond: a→b, a→c, b→d, c→d — no cycle
    let file_imports = vec![
        (
            "a.m3l.md".to_string(),
            vec!["b.m3l.md".to_string(), "c.m3l.md".to_string()],
        ),
        ("b.m3l.md".to_string(), vec!["d.m3l.md".to_string()]),
        ("c.m3l.md".to_string(), vec!["d.m3l.md".to_string()]),
        ("d.m3l.md".to_string(), vec![]),
    ];
    let errors = detect_circular_imports(&file_imports);
    assert!(
        errors.is_empty(),
        "Diamond dependency should not be a cycle"
    );
}

#[test]
fn parse_import_directive() {
    let input = "@import \"base.m3l.md\"\n\n## User\n- id: identifier";
    let parsed = parse_string(input, "test.m3l.md");
    assert_eq!(parsed.imports.len(), 1);
    assert_eq!(parsed.imports[0], "base.m3l.md");
}

#[test]
fn resolve_override_inheritance() {
    let input =
        "## Base ::interface\n- name: string\n\n## Child : Base\n- name: text @override";
    let parsed = parse_string(input, "test.m3l.md");
    let ast = resolve(&[parsed], None);
    assert_eq!(ast.models[0].fields.len(), 1);
    assert_eq!(ast.models[0].fields[0].field_type.as_deref(), Some("text"));
}
