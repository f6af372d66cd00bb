use m3l::parser::parse_string;
use m3l::types::{AttrArgValue, DefaultValueType, FieldKind};

#[test]
fn parse_empty() {
    let result = parse_string("", "test.m3l.md");
    assert!(result.models.is_empty());
    assert!(result.enums.is_empty());
}

#[test]
fn parse_simple_model() {
    let input = "## User\n- id: identifier @pk\n- name: string @required";
    let result = parse_string(input, "test.m3l.md");
    assert_eq!(result.models.len(), 1);
    assert_eq!(result.models[0].name, "User");
    assert_eq!(result.models[0].fields.len(), 2);
    assert_eq!(result.models[0].fields[0].name, "id");
    assert_eq!(
        result.models[0].fields[0].field_type.as_deref(),
        Some("identifier")
    );
    assert_eq!(result.models[0].fields[1].name, "name");
}

#[test]
fn parse_model_with_inheritance() {
    let input = "## Customer : BaseModel\n- email: string";
    let result = parse_string(input, "test.m3l.md");
    assert_eq!(result.models[0].inherits, vec!["BaseModel"]);
}

#[test]
fn parse_enum() {
    let input = "## Status ::enum\n- Active \"Active status\"\n- Inactive";
    let result = parse_string(input, "test.m3l.md");
    assert_eq!(result.enums.len(), 1);
    assert_eq!(result.enums[0].name, "Status");
    assert_eq!(result.enums[0].values.len(), 2);
    assert_eq!(result.enums[0].values[0].name, "Active");
    assert_eq!(
        result.enums[0].values[0].description.as_deref(),
        Some("Active status")
    );
}

#[test]
fn parse_view() {
    let input = "## SalesSummary ::view @materialized\n- total: decimal";
    let result = parse_string(input, "test.m3l.md");
    assert_eq!(result.views.len(), 1);
    assert_eq!(result.views[0].name, "SalesSummary");
    assert_eq!(result.views[0].materialized, Some(true));
}

#[test]
fn parse_interface() {
    let input = "## Timestampable ::interface\n- created_at: timestamp";
    let result = parse_string(input, "test.m3l.md");
    assert_eq!(result.interfaces.len(), 1);
    assert_eq!(result.interfaces[0].name, "Timestampable");
}

#[test]
fn parse_field_with_default() {
    let input = "## User\n- status: string = \"active\"";
    let result = parse_string(input, "test.m3l.md");
    let field = &result.models[0].fields[0];
    assert_eq!(field.default_value.as_deref(), Some("active"));
    assert_eq!(field.default_value_type, Some(DefaultValueType::Literal));
}

#[test]
fn parse_field_expression_default() {
    let input = "## User\n- created_at: timestamp = now()";
    let result = parse_string(input, "test.m3l.md");
    let field = &result.models[0].fields[0];
    assert_eq!(field.default_value.as_deref(), Some("now()"));
    assert_eq!(field.default_value_type, Some(DefaultValueType::Expression));
}

#[test]
fn parse_namespace() {
    let input = "# Namespace: sample.ecommerce\n## User\n- id: identifier";
    let result = parse_string(input, "test.m3l.md");
    assert_eq!(result.namespace.as_deref(), Some("sample.ecommerce"));
}

#[test]
fn parse_non_namespace_h1_ignored() {
    // A non-namespace H1 should not change the namespace
    let input = "# My Data Model\n## User\n- name: string";
    let result = parse_string(input, "test.m3l.md");
    assert_eq!(result.namespace, None, "non-namespace H1 should not set namespace");
    assert_eq!(result.models.len(), 1);
    assert_eq!(result.models[0].name, "User");
}

#[test]
fn parse_namespace_then_title_h1() {
    // Namespace should persist even if followed by a non-namespace H1
    let input = "# Namespace: sample.domain\n# Document Title\n## User\n- name: string";
    let result = parse_string(input, "test.m3l.md");
    assert_eq!(result.namespace.as_deref(), Some("sample.domain"));
    assert_eq!(result.models.len(), 1);
}

#[test]
fn parse_section_indexes() {
    let input = "## User\n- id: identifier\n### Indexes\n- idx_email";
    let result = parse_string(input, "test.m3l.md");
    assert!(!result.models[0].sections.indexes.is_empty());
}

#[test]
fn parse_attribute_def() {
    let input = "## custom_flag ::attribute\n> A custom flag\n- target: [field, model]\n- type: boolean\n- required: false\n- default: true";
    let result = parse_string(input, "test.m3l.md");
    assert_eq!(result.attribute_registry.len(), 1);
    let entry = &result.attribute_registry[0];
    assert_eq!(entry.name, "custom_flag");
    assert_eq!(entry.description.as_deref(), Some("A custom flag"));
    assert_eq!(entry.target, vec!["field", "model"]);
    assert_eq!(entry.attr_type, "boolean");
    assert!(!entry.required);
    assert_eq!(entry.default_value, Some(AttrArgValue::Bool(true)));
}

#[test]
fn parse_lookup_field() {
    let input = "## Order\n- id: identifier\n### Lookup\n- customer_name: string @lookup(customer_id.Customer.name)";
    let result = parse_string(input, "test.m3l.md");
    let field = &result.models[0].fields[1];
    assert_eq!(field.kind, FieldKind::Lookup);
    assert!(field.lookup.is_some());
    assert_eq!(
        field.lookup.as_ref().unwrap().path,
        "customer_id.Customer.name"
    );
}

#[test]
fn parse_computed_field() {
    let input = "## Order\n- total: decimal @computed(`price * qty`)";
    let result = parse_string(input, "test.m3l.md");
    let field = &result.models[0].fields[0];
    assert_eq!(field.kind, FieldKind::Computed);
    assert!(field.computed.is_some());
    assert_eq!(field.computed.as_ref().unwrap().expression, "price * qty");
}

#[test]
fn parse_multiple_models() {
    let input = "## User\n- id: identifier\n\n## Product\n- id: identifier\n- name: string";
    let result = parse_string(input, "test.m3l.md");
    assert_eq!(result.models.len(), 2);
    assert_eq!(result.models[0].name, "User");
    assert_eq!(result.models[1].name, "Product");
}

#[test]
fn parse_model_description() {
    let input = "## User\n> User account model\n- id: identifier";
    let result = parse_string(input, "test.m3l.md");
    assert_eq!(
        result.models[0].description.as_deref(),
        Some("User account model")
    );
}

#[test]
fn parse_empty_model() {
    let input = "## EmptyModel";
    let result = parse_string(input, "test.m3l.md");
    assert_eq!(result.models.len(), 1);
    assert_eq!(result.models[0].name, "EmptyModel");
    assert!(result.models[0].fields.is_empty());
}

#[test]
fn parse_multiple_inheritance() {
    let input = "## Admin : User, Auditable\n- level: integer";
    let result = parse_string(input, "test.m3l.md");
    assert_eq!(result.models[0].inherits, vec!["User", "Auditable"]);
}

#[test]
fn parse_empty_enum() {
    let input = "## Status ::enum";
    let result = parse_string(input, "test.m3l.md");
    assert_eq!(result.enums.len(), 1);
    assert!(result.enums[0].values.is_empty());
}

#[test]
fn parse_field_multiple_attrs() {
    let input = "## User\n- email: string @required @unique @searchable";
    let result = parse_string(input, "test.m3l.md");
    let attrs: Vec<&str> = result.models[0].fields[0]
        .attributes
        .iter()
        .map(|a| a.name.as_str())
        .collect();
    assert!(attrs.contains(&"required"));
    assert!(attrs.contains(&"unique"));
    assert!(attrs.contains(&"searchable"));
}

#[test]
fn parse_nullable_array_item() {
    let input = "## User\n- tags: string?[]?";
    let result = parse_string(input, "test.m3l.md");
    let field = &result.models[0].fields[0];
    assert!(field.nullable);
    assert!(field.array);
}

#[test]
fn parse_qualified_type_ref() {
    let input = "## Order\n- user: Auth.User";
    let result = parse_string(input, "test.m3l.md");
    assert_eq!(
        result.models[0].fields[0].field_type.as_deref(),
        Some("Auth.User")
    );
}
