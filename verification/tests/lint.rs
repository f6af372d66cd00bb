use m3l::lint::{
    are_similar, is_pascal_case, is_snake_case, LintConfig, LintSeverity, Linter, ModelSizeRule,
    NamingConventionRule, RelationComplexityRule, RuleLevel, SimilarFieldsRule,
};
use m3l::parser::parse_string;
use m3l::resolver::resolve;
use m3l::types::{M3lAst, ProjectInfo};

#[test]
fn linter_default_no_rules() {
    let linter = Linter::default();
    let ast = M3lAst {
        parser_version: "0.4.0".into(),
        ast_version: "1.0".into(),
        project: ProjectInfo {
            name: None,
            version: None,
        },
        sources: vec![],
        models: vec![],
        enums: vec![],
        interfaces: vec![],
        views: vec![],
        attribute_registry: vec![],
        errors: vec![],
        warnings: vec![],
    };
    let result = linter.lint(&ast);
    assert!(result.is_empty());
}

#[test]
fn config_rule_off() {
    let mut config = LintConfig::default();
    config.set("test-rule", RuleLevel::Off);
    assert!(!config.is_enabled("test-rule"));
    assert!(config.is_enabled("other-rule"));
}

#[test]
fn config_severity_override() {
    let mut config = LintConfig::default();
    config.set("test-rule", RuleLevel::Error);
    assert_eq!(
        config.severity_for("test-rule", LintSeverity::Warning),
        LintSeverity::Error
    );
}

fn make_large_model(field_count: usize) -> String {
    let mut s = "## LargeModel\n".to_string();
    for i in 0..field_count {
        s.push_str(&format!("- field_{}: string\n", i));
    }
    s
}

#[test]
fn detects_large_model() {
    let input = make_large_model(25);
    let parsed = parse_string(&input, "test.m3l.md");
    let ast = resolve(&[parsed], None);
    let rule = ModelSizeRule::default();
    let results = rule.check(&ast);
    assert_eq!(results.len(), 1);
    assert!(results[0].message.contains("25 fields"));
}

#[test]
fn no_warning_for_small_model() {
    let input = "## User\n- id: identifier\n- name: string";
    let parsed = parse_string(input, "test.m3l.md");
    let ast = resolve(&[parsed], None);
    let rule = ModelSizeRule::default();
    let results = rule.check(&ast);
    assert!(results.is_empty());
}

#[test]
fn custom_threshold() {
    let input = make_large_model(5);
    let parsed = parse_string(&input, "test.m3l.md");
    let ast = resolve(&[parsed], None);
    let rule = ModelSizeRule { max_fields: 3 };
    let results = rule.check(&ast);
    assert_eq!(results.len(), 1);
}

#[test]
fn pascal_case_valid() {
    assert!(is_pascal_case("User"));
    assert!(is_pascal_case("OrderItem"));
    assert!(is_pascal_case("Auth"));
}

#[test]
fn pascal_case_invalid() {
    assert!(!is_pascal_case("user"));
    assert!(!is_pascal_case("order_item"));
    assert!(!is_pascal_case("User_Name"));
}

#[test]
fn snake_case_valid() {
    assert!(is_snake_case("user_name"));
    assert!(is_snake_case("id"));
    assert!(is_snake_case("created_at"));
}

#[test]
fn snake_case_invalid() {
    assert!(!is_snake_case("userName"));
    assert!(!is_snake_case("UserName"));
    assert!(!is_snake_case("ID"));
}

#[test]
fn rule_detects_bad_model_name() {
    let ast = parse_string("## user_model\n- id: identifier", "test.m3l.md");
    let resolved = resolve(&[ast], None);
    let rule = NamingConventionRule;
    let results = rule.check(&resolved);
    assert!(
        results.iter().any(|d| d.message.contains("PascalCase")),
        "Should detect non-PascalCase model name"
    );
}

#[test]
fn rule_detects_bad_field_name() {
    let ast = parse_string("## User\n- UserName: string", "test.m3l.md");
    let resolved = resolve(&[ast], None);
    let rule = NamingConventionRule;
    let results = rule.check(&resolved);
    assert!(
        results.iter().any(|d| d.message.contains("snake_case")),
        "Should detect non-snake_case field name"
    );
}

#[test]
fn rule_no_warnings_for_correct_names() {
    let ast = parse_string(
        "## User\n- user_name: string\n- id: identifier",
        "test.m3l.md",
    );
    let resolved = resolve(&[ast], None);
    let rule = NamingConventionRule;
    let results = rule.check(&resolved);
    assert!(
        results.is_empty(),
        "Should have no warnings for correct naming"
    );
}

#[test]
fn detects_many_relations() {
    let mut input = "## Complex\n".to_string();
    for i in 0..6 {
        input.push_str(&format!(
            "- ref_{}: identifier @reference(Target{})\n",
            i, i
        ));
    }
    let parsed = parse_string(&input, "test.m3l.md");
    let ast = resolve(&[parsed], None);
    let rule = RelationComplexityRule::default();
    let results = rule.check(&ast);
    assert_eq!(results.len(), 1);
    assert!(results[0].message.contains("6 reference fields"));
}

#[test]
fn no_warning_few_relations() {
    let input = "## User\n- org_id: identifier @reference(Org)\n- name: string";
    let parsed = parse_string(input, "test.m3l.md");
    let ast = resolve(&[parsed], None);
    let rule = RelationComplexityRule::default();
    let results = rule.check(&ast);
    assert!(results.is_empty());
}

#[test]
fn similar_names_detected() {
    assert!(are_similar("user_name", "username"));
    assert!(are_similar("created_at", "createdat"));
}

#[test]
fn different_names_not_similar() {
    assert!(!are_similar("user_name", "email"));
    assert!(!are_similar("id", "name"));
}

#[test]
fn rule_detects_similar_fields() {
    let input = "## User\n- user_name: string\n- username: string";
    let parsed = parse_string(input, "test.m3l.md");
    let ast = resolve(&[parsed], None);
    let rule = SimilarFieldsRule;
    let results = rule.check(&ast);
    assert!(!results.is_empty(), "Should detect similar field names");
}

#[test]
fn rule_no_warning_distinct_fields() {
    let input = "## User\n- name: string\n- email: string\n- age: integer";
    let parsed = parse_string(input, "test.m3l.md");
    let ast = resolve(&[parsed], None);
    let rule = SimilarFieldsRule;
    let results = rule.check(&ast);
    assert!(results.is_empty());
}
