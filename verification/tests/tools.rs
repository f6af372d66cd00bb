use m3l::diff::run_diff;
use m3l::format::{format_ast, run_format};
use m3l::graph::{resolve_type_name, run_analyze};
use m3l::lint::{LintConfig, LintSeverity, Linter, RuleLevel};
use m3l::order::{order_texts, sort_texts, text_before};
use m3l::output::{
    build_sarif, ffi_failure, report_lint, report_lint_json, report_validation,
    report_validation_json,
};
use m3l::pipeline::parse;
use m3l::types::{JsonValue, M3lFile, ProjectInfo, ValidateOptions};
use m3l::validator::validate;

fn member<'a>(j: &'a JsonValue, key: &str) -> &'a JsonValue {
    match j {
        JsonValue::Object(members) => {
            &members.iter().find(|m| m.key == key).expect("the key is there").value
        }
        other => panic!("no object: {:?}", other),
    }
}

fn items(j: &JsonValue) -> &Vec<JsonValue> {
    match j {
        JsonValue::Array(list) => list,
        other => panic!("no list: {:?}", other),
    }
}

fn text(s: &str) -> JsonValue {
    JsonValue::String(s.to_string())
}

#[test]
fn format_writes_standard_form() {
    let input = "# Namespace: shop\n## Order(Orders) : Base @public @meta(v, 2)\n> An order\n- id:identifier   @pk\n- total: decimal(10,2)? = 0 @min(0) # all of it\n- tags: string[]\n- address: object\n  - zip: string(5)\n## Base ::interface\n- created_at: timestamp = `now()`\n## Status ::enum\n> What state\n- open \"Open\"\n- closed\n## Totals ::view\n- sum: decimal\n";
    let ast = parse(input, "a.m3l.md");
    let expected = "# Namespace: shop\n\n## Order : Base @public @meta(v, 2)\n> An order\n- created_at: timestamp = now()\n- id: identifier @pk\n- total: decimal(10, 2)? = 0 @min(0) # all of it\n- tags: string[]\n- address: object\n  - zip: string(5)\n\n## Status ::enum\n> What state\n- open \"Open\"\n- closed\n\n## Base ::interface\n- created_at: timestamp = now()\n\n## Totals ::view\n- sum: decimal";
    assert_eq!(format_ast(&ast), expected);
}

#[test]
fn format_of_nothing_is_empty() {
    let ast = parse("", "a.m3l.md");
    assert_eq!(format_ast(&ast), "");
}

#[test]
fn analyze_renders_graphs() {
    let input = "## User\n- id: identifier\n## Order : Base, Missing\n- user_id: identifier @reference(User.id)\n- buyer: Auth.User\n- state: Status\n- self_ref: Order\n- owner: identifier @fk(User)\n## Base ::interface\n- id: identifier\n## Status ::enum\n- open\n## Lonely\n- x: string";
    let ast = parse(input, "a.m3l.md");
    let mermaid = run_analyze(&ast, "mermaid");
    assert_eq!(
        mermaid,
        "graph LR\n    Lonely\n    Order -->|inherits| Base\n    Order -->|has| Status\n    Order -->|fk| User\n    Order -->|ref| User\n    Order -->|has| User\n%% 5 nodes, 5 edges"
    );
    let dot = run_analyze(&ast, "dot");
    assert_eq!(
        dot,
        "digraph M3L {\n    rankdir=LR;\n    node [shape=box, style=filled, fillcolor=lightyellow];\n    \"Base\";\n    \"Lonely\";\n    \"Order\";\n    \"Status\";\n    \"User\";\n    \"Order\" -> \"Base\" [label=\"inherits\", style=dashed, color=blue];\n    \"Order\" -> \"Status\" [label=\"type_ref\", color=black];\n    \"Order\" -> \"User\" [label=\"fk\", color=green];\n    \"Order\" -> \"User\" [label=\"reference\", color=red];\n    \"Order\" -> \"User\" [label=\"type_ref\", color=black];\n}"
    );
    assert_eq!(run_analyze(&ast, "anything"), mermaid);
    assert_eq!(resolve_type_name("Auth.User"), "User");
    assert_eq!(resolve_type_name("User"), "User");
}

#[test]
fn diff_reports_changes() {
    let left = parse(
        "## A\n- id: identifier\n- name: string\n- old: string\n## Gone\n- x: string\n## E ::enum\n- a",
        "l.m3l.md",
    );
    let right = parse(
        "## A\n- id: long?\n- name: string\n- tags: string[]\n## New\n- x: string\n## F ::enum\n- a",
        "r.m3l.md",
    );
    assert_eq!(
        run_diff(&left, &right),
        "+ A.tags\n+ enum F\n+ model New\n- A.old\n- enum E\n- model Gone\n~ A.id: type: identifier \u{2192} long, nullable: false \u{2192} true\n\n3 added, 3 removed, 1 modified"
    );
    assert_eq!(run_diff(&left, &left), "No differences found.");
}

#[test]
fn texts_are_ordered_by_their_characters() {
    assert!(text_before("A", "AB"));
    assert!(text_before("AB", "B"));
    assert!(text_before("", "a"));
    assert!(!text_before("a", "a"));
    assert!(!text_before("b", "a"));
    assert!(text_before("Z", "a"));
    let list: Vec<String> = ["b", "a", "c", "a", "B"].iter().map(|s| s.to_string()).collect();
    assert_eq!(sort_texts(&list), vec!["B", "a", "b", "c"]);
    assert_eq!(order_texts(&list), vec!["B", "a", "a", "b", "c"]);
}

#[test]
fn validation_reports() {
    let ast = parse("## A\n- t: Unknown\n- d: datetime", "a.m3l.md");
    let result = validate(&ast, &ValidateOptions { strict: false });
    assert_eq!(
        report_validation(&result, 1),
        "a.m3l.md:2:1 error[M3L-E009]: Undefined type \"Unknown\" in field \"t\" of model \"A\"\na.m3l.md:3:1 warning[M3L-W003]: Deprecated type \"datetime\" in field \"d\" \u{2014} use \"timestamp\" instead\n1 error, 1 warning in 1 file."
    );
    let clean = validate(&parse("## A", "a"), &ValidateOptions { strict: false });
    assert_eq!(report_validation(&clean, 2), "0 errors, 0 warnings in 2 files.");
    let json = report_validation_json(&result, 1);
    let diagnostics = items(member(&json, "diagnostics"));
    assert_eq!(diagnostics.len(), 2);
    assert_eq!(member(&diagnostics[0], "code"), &text("M3L-E009"));
    assert_eq!(member(&diagnostics[1], "severity"), &text("warning"));
    let summary = member(&json, "summary");
    assert_eq!(member(summary, "errors"), &JsonValue::UInt(1));
    assert_eq!(member(summary, "warnings"), &JsonValue::UInt(1));
    assert_eq!(member(summary, "files"), &JsonValue::UInt(1));
}

#[test]
fn lint_reports() {
    let ast = parse("## user\n- UserName: string\n- user_name: string", "a.m3l.md");
    let mut config = LintConfig::default();
    config.set("similar-fields", RuleLevel::Error);
    config.set("model-size", RuleLevel::Off);
    let findings = Linter::new(config).lint(&ast);
    assert_eq!(
        report_lint(&findings, 1),
        "a.m3l.md:1:1 warning[naming-convention]: Model name \"user\" should be PascalCase\na.m3l.md:2:1 warning[naming-convention]: Field name \"UserName\" should be snake_case\na.m3l.md:3:1 error[similar-fields]: Field \"user_name\" is very similar to \"UserName\" in model \"user\"\n3 lint issues in 1 file."
    );
    assert_eq!(findings[2].severity, LintSeverity::Error);
    let json = report_lint_json(&findings, 1);
    assert_eq!(items(member(&json, "diagnostics")).len(), 3);
    assert_eq!(member(member(&json, "summary"), "count"), &JsonValue::UInt(3));
    let sarif = build_sarif(&findings, "0.4.0");
    assert_eq!(member(&sarif, "version"), &text("2.1.0"));
    let run = &items(member(&sarif, "runs"))[0];
    let driver = member(member(run, "tool"), "driver");
    assert_eq!(member(driver, "name"), &text("m3l-lint"));
    assert_eq!(items(member(driver, "rules")).len(), 4);
    let results = items(member(run, "results"));
    assert_eq!(results.len(), 3);
    assert_eq!(member(&results[2], "level"), &text("error"));
    assert_eq!(member(&results[0], "ruleId"), &text("naming-convention"));
    let place = member(&items(member(&results[1], "locations"))[0], "physicalLocation");
    assert_eq!(member(member(place, "region"), "startLine"), &JsonValue::UInt(2));
    assert_eq!(member(member(place, "artifactLocation"), "uri"), &text("a.m3l.md"));
    let none = Linter::default().lint(&parse("## User\n- id: identifier", "a"));
    assert_eq!(report_lint(&none, 1), "0 lint issues in 1 file.");
}

#[test]
fn failure_envelope() {
    let failed = ffi_failure("Internal parser panic");
    assert_eq!(member(&failed, "success"), &JsonValue::Bool(false));
    assert_eq!(member(&failed, "error"), &text("Internal parser panic"));
}

#[test]
fn format_of_files() {
    let files = vec![
        M3lFile { content: "## A : B\n- id:identifier".into(), path: "a.m3l.md".into() },
        M3lFile { content: "## B ::interface\n- at: timestamp".into(), path: "b.m3l.md".into() },
    ];
    let project = Some(ProjectInfo { name: Some("shop".into()), version: None });
    assert_eq!(
        run_format(&files, "dir", project),
        Ok("# Namespace: shop\n\n## A : B\n- at: timestamp\n- id: identifier\n\n## B ::interface\n- at: timestamp".to_string())
    );
    assert_eq!(
        run_format(&[], "dir", None),
        Err("No M3L files (.m3l, .m3l.md, .md) found at: dir".to_string())
    );
}
