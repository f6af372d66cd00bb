use m3l::decode::{
    diagnostic_from_json, field_node_from_json, m3l_ast_from_json, sections_from_json,
    source_location_from_json,
};
use m3l::json::{field_node_to_json, m3l_ast_to_json, sections_to_json};
use m3l::pipeline::{parse, parse_multi};
use m3l::types::{
    Diagnostic, DiagnosticSeverity, JsonMember, JsonValue, M3lFile, SourceLocation,
};

fn text(s: &str) -> JsonValue {
    JsonValue::String(s.to_string())
}

fn object(members: Vec<(&str, JsonValue)>) -> JsonValue {
    JsonValue::Object(
        members.into_iter().map(|(k, v)| JsonMember { key: k.to_string(), value: v }).collect(),
    )
}

const SAMPLE: &str = "# Namespace: shop\n\n@import \"base.m3l.md\"\n\n::: attribute @audited\n- target: field, model\n- type: number\n- range: 1..5\n- default: 2\n:::\n\n## Order(Orders) : Base @public @meta(v, 2, true)\n> An order\n- id: identifier @pk @generated\n- total: decimal(10,2)? = 0 @min(0) # all of it\n- tags: string[] [JsonIgnore] [MaxLength(5)]\n- state: enum = \"open\"\n  - open: \"Open\"\n  - closed\n- address: object\n  - zip: string(5)\n  - place: object\n    - lat: float\n- customer_name: string @lookup(customer_id.name)\n- n: integer @rollup(Line.order_id, count)\n- gross: decimal @computed(\"total * 1.2\")\n### Indexes\n- by_total\n### Metadata\n- owner: \"sales\"\n- weight: 3\n### Notes\n- remember\n\n## Base ::interface\n- created_at: timestamp = `now()`\n\n## Status ::enum\n> What state\n- open \"Open\"\n- closed\n\n## Totals ::view @materialized\n### Source\n- from: Order\n- where: \"total > 0\"\n- group_by: state\n- sum: decimal\n### Refresh\n- strategy: incremental\n- interval: \"1h\"\n\n## Broken\n- t: Unknown\n- d: datetime\n- d: date\n";

#[test]
fn tree_is_read_back_as_written() {
    let ast = parse(SAMPLE, "shop.m3l.md");
    assert!(!ast.models.is_empty());
    assert!(!ast.errors.is_empty());
    let written = m3l_ast_to_json(&ast);
    let back = m3l_ast_from_json(&written).expect("the tree is read back");
    assert_eq!(back, ast);
    assert_eq!(m3l_ast_to_json(&back), written);
}

#[test]
fn merged_tree_is_read_back_as_written() {
    let files = vec![
        M3lFile { content: "# Namespace: a\n## P\n- id: identifier".into(), path: "a.m3l.md".into() },
        M3lFile { content: "# Namespace: b\n## P\n- id: identifier".into(), path: "b.m3l.md".into() },
    ];
    let ast = parse_multi(&files);
    let written = m3l_ast_to_json(&ast);
    assert_eq!(m3l_ast_from_json(&written), Some(ast));
}

#[test]
fn field_is_read_back_with_what_is_set() {
    let ast = parse(SAMPLE, "shop.m3l.md");
    for model in ast.models.iter() {
        for field in model.fields.iter() {
            let written = field_node_to_json(field);
            assert_eq!(field_node_from_json(&written).as_ref(), Some(field));
        }
    }
}

#[test]
fn members_are_found_in_any_order() {
    let a = object(vec![
        ("file", text("a.m3l.md")),
        ("line", JsonValue::UInt(3)),
        ("col", JsonValue::UInt(1)),
    ]);
    let b = object(vec![
        ("col", JsonValue::Int(1)),
        ("extra", JsonValue::Null),
        ("line", JsonValue::Int(3)),
        ("file", text("a.m3l.md")),
    ]);
    let expected = SourceLocation { file: "a.m3l.md".into(), line: 3, col: 1 };
    assert_eq!(source_location_from_json(&a).as_ref(), Some(&expected));
    assert_eq!(source_location_from_json(&b).as_ref(), Some(&expected));
}

#[test]
fn first_of_two_members_with_one_key_counts() {
    let j = object(vec![
        ("file", text("first")),
        ("file", text("second")),
        ("line", JsonValue::UInt(1)),
        ("col", JsonValue::UInt(1)),
    ]);
    assert_eq!(source_location_from_json(&j).map(|l| l.file), Some("first".to_string()));
}

#[test]
fn missing_or_misshapen_members_are_refused() {
    let no_col = object(vec![("file", text("a")), ("line", JsonValue::UInt(3))]);
    assert_eq!(source_location_from_json(&no_col), None);
    let negative = object(vec![
        ("file", text("a")),
        ("line", JsonValue::Int(-1)),
        ("col", JsonValue::UInt(1)),
    ]);
    assert_eq!(source_location_from_json(&negative), None);
    let number_for_text = object(vec![
        ("file", JsonValue::UInt(1)),
        ("line", JsonValue::UInt(1)),
        ("col", JsonValue::UInt(1)),
    ]);
    assert_eq!(source_location_from_json(&number_for_text), None);
    assert_eq!(source_location_from_json(&JsonValue::Null), None);
    assert_eq!(source_location_from_json(&JsonValue::Array(vec![])), None);
}

#[test]
fn words_are_read_as_written() {
    let d = |severity: &str| {
        object(vec![
            ("code", text("M3L-E001")),
            ("severity", text(severity)),
            ("file", text("a")),
            ("line", JsonValue::UInt(1)),
            ("col", JsonValue::UInt(1)),
            ("message", text("m")),
        ])
    };
    let expected = |severity: DiagnosticSeverity| Diagnostic {
        code: "M3L-E001".into(),
        severity,
        file: "a".into(),
        line: 1,
        col: 1,
        message: "m".into(),
    };
    assert_eq!(diagnostic_from_json(&d("error")), Some(expected(DiagnosticSeverity::Error)));
    assert_eq!(diagnostic_from_json(&d("warning")), Some(expected(DiagnosticSeverity::Warning)));
    assert_eq!(diagnostic_from_json(&d("Error")), None);
    assert_eq!(diagnostic_from_json(&d("")), None);
}

#[test]
fn custom_section_with_a_bucket_key_is_lost() {
    let ast = parse("## A\n- id: identifier\n### indexes\n- by_id\n### Notes\n- n", "a.m3l.md");
    let sections = &ast.models[0].sections;
    assert!(sections.custom.iter().any(|m| m.key == "indexes"));
    let written = sections_to_json(sections);
    let back = sections_from_json(&written).expect("the sections are read back");
    assert!(back.custom.iter().all(|m| m.key != "indexes"));
    assert!(back.custom.iter().any(|m| m.key == "Notes"));
    assert_ne!(sections_to_json(&back), written);
}
