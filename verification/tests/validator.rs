use m3l::parser::parse_string;
use m3l::resolver::resolve;
use m3l::types::{ValidateOptions, ValidateResult};
use m3l::validator::validate;

fn parse_and_validate(input: &str) -> ValidateResult {
    let parsed = parse_string(input, "test.m3l.md");
    let ast = resolve(&[parsed], None);
    validate(&ast, &ValidateOptions::default())
}

#[test]
fn validate_clean() {
    let result = parse_and_validate("## User\n- id: identifier @pk\n- name: string");
    assert!(result.errors.is_empty());
    assert!(result.warnings.is_empty());
}

#[test]
fn validator_validate_e009_undefined_type() {
    let result = parse_and_validate("## User\n- id: UnknownType");
    assert!(result.errors.iter().any(|e| e.code == "M3L-E009"));
}

#[test]
fn validate_e009_defined_model_ref() {
    let result = parse_and_validate("## Address\n- city: string\n\n## User\n- addr: Address");
    assert!(
        !result.errors.iter().any(|e| e.code == "M3L-E009"),
        "Should not report E009 for a defined model reference"
    );
}

#[test]
fn validate_w003_datetime() {
    let result = parse_and_validate("## User\n- ts: datetime");
    assert!(result.warnings.iter().any(|w| w.code == "M3L-W003"));
}

#[test]
fn validate_w003_deprecated_attr() {
    let result = parse_and_validate("## User\n- ref_id: identifier @reference(Other) @cascade");
    assert!(result
        .warnings
        .iter()
        .any(|w| w.code == "M3L-W003" && w.message.contains("cascade")));
}

#[test]
fn validate_strict_w004_long_lookup() {
    let input =
        "## A\n- fk: identifier @reference(B)\n### Lookup\n- x: string @lookup(fk.B.C.D.name)";
    let parsed = parse_string(input, "test.m3l.md");
    let ast = resolve(&[parsed], None);
    let result = validate(&ast, &ValidateOptions { strict: true });
    assert!(result.warnings.iter().any(|w| w.code == "M3L-W004"));
}

#[test]
fn validate_w005_attr_type_mismatch() {
    // Register a number-type attribute via ::attribute syntax, then use with string arg
    let input = "## rating ::attribute\n- type: number\n- target: field\n\n## Product\n- score: integer @rating(high)";
    let result = parse_and_validate(input);
    assert!(
        result.warnings.iter().any(|w| w.code == "M3L-W005"),
        "Should warn about type mismatch: expected number got string"
    );
}

#[test]
fn validate_w006_attr_range_violation() {
    let input = "## priority ::attribute\n- type: number\n- range: 1..10\n- target: field\n\n## Task\n- level: integer @priority(15)";
    let result = parse_and_validate(input);
    assert!(
        result.warnings.iter().any(|w| w.code == "M3L-W006"),
        "Should warn about value outside range [1, 10]"
    );
}

#[test]
fn validate_no_w005_correct_type() {
    let input = "## priority ::attribute\n- type: number\n- target: field\n\n## Task\n- level: integer @priority(5)";
    let result = parse_and_validate(input);
    assert!(
        !result.warnings.iter().any(|w| w.code == "M3L-W005"),
        "Should not warn when type matches"
    );
}

#[test]
fn validate_no_w006_in_range() {
    let input = "## priority ::attribute\n- type: number\n- range: 1..10\n- target: field\n\n## Task\n- level: integer @priority(5)";
    let result = parse_and_validate(input);
    assert!(
        !result.warnings.iter().any(|w| w.code == "M3L-W006"),
        "Should not warn when value is in range"
    );
}

#[test]
fn validate_qualified_namespace_ref() {
    let input = "## User\n- id: identifier\n\n## Order\n- buyer: Auth.User";
    let result = parse_and_validate(input);
    assert!(
        !result.errors.iter().any(|e| e.code == "M3L-E009"),
        "Should not report E009 for qualified namespace reference Auth.User when User is defined"
    );
}

#[test]
fn validate_qualified_ref_unknown() {
    let input = "## Order\n- buyer: Auth.Customer";
    let result = parse_and_validate(input);
    assert!(
        result.errors.iter().any(|e| e.code == "M3L-E009"),
        "Should report E009 for Auth.Customer when Customer is not defined"
    );
}

#[test]
fn validate_no_false_positives() {
    let input = "## Status ::enum\n- Active\n- Inactive\n\n## User\n- id: identifier @pk\n- status: Status";
    let result = parse_and_validate(input);
    assert!(result.errors.is_empty());
}
