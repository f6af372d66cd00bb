use m3l::catalogs::{kind_sections, standard_attributes, type_catalog};
use m3l::json::{
    attribute_registry_entry_to_json, diagnostic_to_json, enum_node_to_json,
    field_attribute_to_json, field_node_to_json, kind_text, m3l_ast_to_json, model_node_to_json,
    sections_to_json,
};
use m3l::output::{parse_multi_to_json, parse_to_json, validate_to_json};
use m3l::parser::parse_string;
use m3l::resolver::resolve;
use m3l::types::{
    AttrArgValue, AttributeRegistryEntry, Diagnostic, DiagnosticSeverity, EnumNode, EnumValue,
    FieldAttribute, FieldKind, FieldNode, JsonMember, JsonValue, M3lAst, M3lFile, ModelNode,
    ModelType, ProjectInfo, Sections, SourceLocation, ValidateJsonOptions, ValidateOptions,
};
use m3l::validator::validate;
use serde_json::{Number, Value};

fn to_serde(value: &JsonValue) -> Value {
    match value {
        JsonValue::Null => Value::Null,
        JsonValue::Bool(b) => Value::Bool(*b),
        JsonValue::Int(i) => Value::Number(Number::from(*i)),
        JsonValue::UInt(u) => Value::Number(Number::from(*u)),
        JsonValue::Number(n) => match n.text.parse::<f64>().ok().and_then(Number::from_f64) {
            Some(number) => Value::Number(number),
            None => Value::Null,
        },
        JsonValue::String(s) => Value::String(s.clone()),
        JsonValue::Array(items) => Value::Array(items.iter().map(to_serde).collect()),
        JsonValue::Object(members) => {
            let mut map = serde_json::Map::new();
            for m in members {
                map.insert(m.key.clone(), to_serde(&m.value));
            }
            Value::Object(map)
        }
    }
}

fn full_pipeline(input: &str, source: &str) -> M3lAst {
    let parsed = parse_string(input, source);
    let ast = resolve(&[parsed], None);
    validate(&ast, &ValidateOptions { strict: false });
    ast
}

fn assert_success(json: &JsonValue) -> Value {
    let v = to_serde(json);
    assert_eq!(v["success"], true, "expected success=true, got: {v}");
    v
}

fn options(strict: bool, filename: &str) -> ValidateJsonOptions {
    ValidateJsonOptions { strict, filename: filename.to_string() }
}

#[test]
fn ffi_parse_single_model() {
    let content = "## Product\n- name : string\n- price : decimal\n";
    let result = parse_to_json(content, "test.m3l.md");
    let v = assert_success(&result);

    let models = v["data"]["models"].as_array().unwrap();
    assert_eq!(models.len(), 1);
    assert_eq!(models[0]["name"], "Product");

    let fields = models[0]["fields"].as_array().unwrap();
    assert_eq!(fields.len(), 2);
    assert_eq!(fields[0]["name"], "name");
    assert_eq!(fields[1]["name"], "price");
}

#[test]
fn ffi_parse_empty_input() {
    let result = parse_to_json("", "empty.m3l.md");
    let v = assert_success(&result);
    assert_eq!(v["data"]["models"].as_array().unwrap().len(), 0);
}

#[test]
fn ffi_parse_with_enum() {
    let content = "## Status ::enum\n- Active\n- Inactive\n- Deleted\n";
    let result = parse_to_json(content, "test.m3l.md");
    let v = assert_success(&result);

    let enums = v["data"]["enums"].as_array().unwrap();
    assert_eq!(enums.len(), 1);
    assert_eq!(enums[0]["name"], "Status");
    assert_eq!(enums[0]["values"].as_array().unwrap().len(), 3);
}

#[test]
fn ffi_parse_json_structure() {
    let content = "## Item\n- id : int\n";
    let result = parse_to_json(content, "test.m3l.md");
    let v = assert_success(&result);

    // Check top-level AST keys exist
    assert!(v["data"]["parserVersion"].is_string());
    assert!(v["data"]["astVersion"].is_string());
    assert!(v["data"]["sources"].is_array());
    assert!(v["data"]["models"].is_array());
    assert!(v["data"]["enums"].is_array());
    assert!(v["data"]["errors"].is_array());
    assert!(v["data"]["warnings"].is_array());
}

#[test]
fn ffi_parse_multi_files() {
    let files = vec![
        M3lFile {
            content: "## Product\n- name : string\n".into(),
            path: "product.m3l.md".into(),
        },
        M3lFile {
            content: "## Category\n- title : string\n".into(),
            path: "category.m3l.md".into(),
        },
    ];
    let result = parse_multi_to_json(&files);
    let v = assert_success(&result);

    let models = v["data"]["models"].as_array().unwrap();
    assert_eq!(models.len(), 2);

    let sources = v["data"]["sources"].as_array().unwrap();
    assert_eq!(sources.len(), 2);
}

#[test]
fn ffi_parse_multi_empty_array() {
    let result = parse_multi_to_json(&[]);
    let v = assert_success(&result);
    assert_eq!(v["data"]["models"].as_array().unwrap().len(), 0);
}

#[test]
fn ffi_validate_clean() {
    let content = "## Product\n- name : string\n- price : decimal\n";
    let result = validate_to_json(content, &options(false, "test.m3l.md"));
    let v = assert_success(&result);

    assert_eq!(v["data"]["errors"].as_array().unwrap().len(), 0);
    assert_eq!(v["data"]["warnings"].as_array().unwrap().len(), 0);
}

#[test]
fn ffi_validate_with_errors() {
    // M3L-E009: undefined type reference
    let content = "## Product\n- category : UnknownType\n";
    let result = validate_to_json(content, &options(false, "test.m3l.md"));
    let v = assert_success(&result);

    let errors = v["data"]["errors"].as_array().unwrap();
    assert!(!errors.is_empty(), "should have M3L-E009 error");
    assert!(errors.iter().any(|e| e["code"] == "M3L-E009"));
}

#[test]
fn ffi_validate_default_options() {
    let content = "## Product\n- name : string\n";
    let result = validate_to_json(content, &ValidateJsonOptions::default());
    let v = assert_success(&result);
    assert_eq!(v["data"]["errors"].as_array().unwrap().len(), 0);
}

#[test]
fn ffi_validate_default_filename() {
    let content = "## Item\n- name : string\n";
    let result = validate_to_json(content, &options(false, ""));
    let v = assert_success(&result);
    // Should work with default filename
    assert!(v["data"].is_object());
}

#[test]
fn field_node_json_keys() {
    let field = FieldNode {
        name: "email".into(),
        label: None,
        field_type: Some("string".into()),
        params: None,
        generic_params: None,
        nullable: false,
        array: false,
        array_item_nullable: false,
        kind: FieldKind::Stored,
        default_value: None,
        default_value_type: None,
        description: None,
        attributes: vec![],
        framework_attrs: None,
        lookup: None,
        rollup: None,
        computed: None,
        enum_values: None,
        fields: None,
        loc: SourceLocation { file: "test.m3l.md".into(), line: 1, col: 1 },
    };

    let json = to_serde(&field_node_to_json(&field));
    let obj = json.as_object().unwrap();

    assert!(obj.contains_key("name"));
    assert!(obj.contains_key("type")); // renamed from field_type
    assert!(obj.contains_key("nullable"));
    assert!(obj.contains_key("array"));
    assert!(obj.contains_key("arrayItemNullable")); // camelCase
    assert!(obj.contains_key("kind"));
    assert!(obj.contains_key("attributes"));
    assert!(obj.contains_key("loc"));

    // Optional fields should be absent when None
    assert!(!obj.contains_key("label"));
    assert!(!obj.contains_key("params"));
    assert!(!obj.contains_key("generic_params"));
    assert!(!obj.contains_key("default_value"));
    assert!(!obj.contains_key("default_value_type"));
    assert!(!obj.contains_key("description"));
    assert!(!obj.contains_key("framework_attrs"));
    assert!(!obj.contains_key("lookup"));
    assert!(!obj.contains_key("rollup"));
    assert!(!obj.contains_key("computed"));
    assert!(!obj.contains_key("enum_values"));
    assert!(!obj.contains_key("fields"));

    // Always-present fields have correct values
    assert_eq!(json["nullable"], false);
    assert_eq!(json["array"], false);
    assert_eq!(json["arrayItemNullable"], false);
    assert_eq!(json["kind"], "stored");
    assert_eq!(json["attributes"], Value::Array(vec![]));
}

#[test]
fn field_attribute_optional_fields() {
    let attr = FieldAttribute {
        name: "pk".into(),
        args: None,
        cascade: None,
        is_standard: None,
        is_registered: None,
    };
    let json = to_serde(&field_attribute_to_json(&attr));
    let obj = json.as_object().unwrap();

    assert_eq!(obj.len(), 1); // only "name"
    assert_eq!(json["name"], "pk");
}

#[test]
fn field_attribute_with_standard() {
    let attr = FieldAttribute {
        name: "generated".into(),
        args: None,
        cascade: None,
        is_standard: Some(true),
        is_registered: None,
    };
    let json = to_serde(&field_attribute_to_json(&attr));

    assert_eq!(json["name"], "generated");
    assert_eq!(json["isStandard"], true); // camelCase key
    assert!(!json.as_object().unwrap().contains_key("isRegistered"));
}

#[test]
fn model_node_json_keys() {
    let model = ModelNode {
        name: "User".into(),
        label: None,
        model_type: ModelType::Model,
        source: "test.m3l.md".into(),
        line: 1,
        inherits: vec![],
        description: None,
        attributes: vec![],
        fields: vec![],
        sections: Sections::default(),
        materialized: None,
        source_def: None,
        refresh: None,
        loc: SourceLocation { file: "test.m3l.md".into(), line: 1, col: 1 },
    };

    let json = to_serde(&model_node_to_json(&model));
    let obj = json.as_object().unwrap();

    assert_eq!(json["type"], "model");
    assert!(obj.contains_key("inherits"));
    assert!(obj.contains_key("attributes"));
    assert!(obj.contains_key("fields"));
    assert!(obj.contains_key("sections"));
    assert!(!obj.contains_key("materialized"));
    assert!(!obj.contains_key("source_def"));
    assert!(!obj.contains_key("refresh"));
}

#[test]
fn m3l_ast_json_keys() {
    let ast = M3lAst {
        parser_version: "0.4.0".into(),
        ast_version: "1.0".into(),
        project: ProjectInfo { name: Some("test".into()), version: None },
        sources: vec![],
        models: vec![],
        enums: vec![],
        interfaces: vec![],
        views: vec![],
        attribute_registry: vec![],
        errors: vec![],
        warnings: vec![],
    };

    let json = to_serde(&m3l_ast_to_json(&ast));
    let obj = json.as_object().unwrap();

    // camelCase keys
    assert!(obj.contains_key("parserVersion"));
    assert!(obj.contains_key("astVersion"));
    assert!(obj.contains_key("attributeRegistry"));

    // Not snake_case
    assert!(!obj.contains_key("parser_version"));
    assert!(!obj.contains_key("ast_version"));
    assert!(!obj.contains_key("attribute_registry"));
}

#[test]
fn enum_node_json() {
    let en = EnumNode {
        name: "Status".into(),
        label: None,
        enum_type: ModelType::Enum,
        source: "test.m3l.md".into(),
        line: 5,
        inherits: vec![],
        description: None,
        values: vec![EnumValue {
            name: "Active".into(),
            description: Some("Active status".into()),
            value_type: None,
            value: None,
        }],
        loc: SourceLocation { file: "test.m3l.md".into(), line: 5, col: 1 },
    };

    let json = to_serde(&enum_node_to_json(&en));
    assert_eq!(json["type"], "enum");
    assert_eq!(json["values"][0]["name"], "Active");
    assert_eq!(json["values"][0]["description"], "Active status");
}

#[test]
fn attribute_registry_entry_json() {
    let entry = AttributeRegistryEntry {
        name: "custom_flag".into(),
        description: Some("A custom flag".into()),
        target: vec!["field".into(), "model".into()],
        attr_type: "boolean".into(),
        range: None,
        required: false,
        default_value: Some(AttrArgValue::Bool(false)),
    };

    let json = to_serde(&attribute_registry_entry_to_json(&entry));
    assert_eq!(json["defaultValue"], false); // camelCase
    assert_eq!(json["type"], "boolean");
    assert!(!json.as_object().unwrap().contains_key("range"));
}

#[test]
fn diagnostic_json() {
    let diag = Diagnostic {
        code: "M3L-E001".into(),
        severity: DiagnosticSeverity::Error,
        file: "test.m3l.md".into(),
        line: 10,
        col: 1,
        message: "Test error".into(),
    };

    let json = to_serde(&diagnostic_to_json(&diag));
    assert_eq!(json["severity"], "error");
    assert_eq!(json["code"], "M3L-E001");
}

#[test]
fn field_kind_serialization() {
    assert_eq!(kind_text(FieldKind::Stored), "stored");
    assert_eq!(kind_text(FieldKind::Computed), "computed");
    assert_eq!(kind_text(FieldKind::Lookup), "lookup");
    assert_eq!(kind_text(FieldKind::Rollup), "rollup");
}

#[test]
fn sections_default_with_custom() {
    let mut sections = Sections::default();
    sections.custom.push(JsonMember {
        key: "CustomSection".into(),
        value: JsonValue::Array(vec![JsonValue::String("item1".into())]),
    });

    let json = to_serde(&sections_to_json(&sections));
    let obj = json.as_object().unwrap();

    assert!(obj.contains_key("indexes"));
    assert!(obj.contains_key("relations"));
    assert!(obj.contains_key("behaviors"));
    assert!(obj.contains_key("metadata"));
    assert!(obj.contains_key("CustomSection")); // flattened
    assert_eq!(json["CustomSection"], Value::Array(vec![Value::String("item1".into())]));
}

#[test]
fn catalogs_content() {
    // Type catalog
    assert!(type_catalog().contains(&"string"));
    assert!(type_catalog().contains(&"datetime")); // deprecated but still accepted
    assert!(!type_catalog().contains(&"unknown_type"));
    assert_eq!(type_catalog().len(), 22);

    // Standard attributes
    assert!(standard_attributes().contains(&"primary"));
    assert!(standard_attributes().contains(&"override"));
    assert!(!standard_attributes().contains(&"custom_attr"));
    assert_eq!(standard_attributes().len(), 31);

    // Kind sections
    assert!(kind_sections().contains(&"Lookup"));
    assert!(kind_sections().contains(&"Computed from Rollup"));
    assert_eq!(kind_sections().len(), 4);
}

#[test]
fn json_output_basic_model_structure() {
    let input = "## User\n- id: identifier @pk\n- name: string(100) @not_null";
    let parsed = parse_string(input, "test.m3l.md");
    let ast = resolve(&[parsed], None);
    validate(&ast, &ValidateOptions { strict: false });

    let json_val = to_serde(&m3l_ast_to_json(&ast));

    // Top-level structure
    assert!(json_val["parserVersion"].is_string());
    assert!(json_val["astVersion"].is_string());
    assert!(json_val["project"].is_object());
    assert!(json_val["sources"].is_array());
    assert!(json_val["models"].is_array());
    assert!(json_val["enums"].is_array());
    assert!(json_val["interfaces"].is_array());
    assert!(json_val["views"].is_array());
    assert!(json_val["attributeRegistry"].is_array());
    assert!(json_val["errors"].is_array());
    assert!(json_val["warnings"].is_array());

    // Model structure
    let model = &json_val["models"][0];
    assert_eq!(model["name"], "User");
    assert_eq!(model["type"], "model");
    assert!(model["source"].is_string());
    assert!(model["line"].is_number());
    assert!(model["inherits"].is_array());
    assert!(model["attributes"].is_array());
    assert!(model["fields"].is_array());
    assert!(model["sections"].is_object());
    assert!(model["loc"].is_object());

    // Field structure
    let field = &model["fields"][0];
    assert_eq!(field["name"], "id");
    assert_eq!(field["type"], "identifier");
    assert_eq!(field["nullable"], false);
    assert_eq!(field["array"], false);
    assert_eq!(field["arrayItemNullable"], false);
    assert_eq!(field["kind"], "stored");
    assert!(field["attributes"].is_array());
    assert!(field["loc"].is_object());
    assert_eq!(field["loc"]["col"], 1);

    // Attribute without isStandard should NOT have the field
    let pk_attr = &field["attributes"][0];
    assert_eq!(pk_attr["name"], "pk");
    assert!(
        pk_attr.get("isStandard").is_none() || pk_attr["isStandard"].is_null(),
        "@pk should not have isStandard"
    );

    // Sections should have standard keys with empty arrays/objects
    let sections = &model["sections"];
    assert!(sections["indexes"].is_array());
    assert!(sections["relations"].is_array());
    assert!(sections["behaviors"].is_array());
    assert!(sections["metadata"].is_object());

    // the parameter of the second field is the number that was written
    assert_eq!(model["fields"][1]["params"][0], 100.0);
}

#[test]
fn json_output_enum_structure() {
    let input = "## Status ::enum\n- active: \"Active\"\n- inactive: \"Inactive\"";
    let ast = full_pipeline(input, "test.m3l.md");
    let json_val = to_serde(&m3l_ast_to_json(&ast));

    let enum_node = &json_val["enums"][0];
    assert_eq!(enum_node["name"], "Status");
    assert_eq!(enum_node["type"], "enum");
    assert!(enum_node["values"].is_array());
    assert_eq!(enum_node["values"][0]["name"], "active");
}

#[test]
fn json_output_optional_fields_omitted() {
    let input = "## User\n- id: identifier @pk";
    let ast = full_pipeline(input, "test.m3l.md");
    let json_val = to_serde(&m3l_ast_to_json(&ast));

    let field = &json_val["models"][0]["fields"][0];

    // These optional fields should NOT be present when None
    assert!(field.get("label").is_none() || field["label"].is_null());
    assert!(field.get("params").is_none() || field["params"].is_null());
    assert!(field.get("generic_params").is_none() || field["generic_params"].is_null());
    assert!(field.get("default_value").is_none() || field["default_value"].is_null());
    assert!(field.get("description").is_none() || field["description"].is_null());
    assert!(field.get("framework_attrs").is_none() || field["framework_attrs"].is_null());
    assert!(field.get("lookup").is_none() || field["lookup"].is_null());
    assert!(field.get("rollup").is_none() || field["rollup"].is_null());
    assert!(field.get("computed").is_none() || field["computed"].is_null());
    assert!(field.get("enum_values").is_none() || field["enum_values"].is_null());

    // These should always be present
    assert!(field.get("nullable").is_some());
    assert!(field.get("array").is_some());
    assert!(field.get("arrayItemNullable").is_some());
    assert!(field.get("kind").is_some());
    assert!(field.get("attributes").is_some());
    assert!(field.get("loc").is_some());
}

#[test]
fn json_output_field_names_match_ts() {
    let input = "## User\n- id: identifier @pk @generated\n- name: string(100) @not_null";
    let ast = full_pipeline(input, "test.m3l.md");
    let json = serde_json::to_string_pretty(&to_serde(&m3l_ast_to_json(&ast))).unwrap();

    // Check top-level field names
    assert!(json.contains("\"parserVersion\""));
    assert!(json.contains("\"astVersion\""));
    assert!(json.contains("\"attributeRegistry\""));

    // Check field-level names
    assert!(json.contains("\"arrayItemNullable\""));

    // Check isStandard on standard attributes (@generated, @not_null)
    assert!(
        json.contains("\"isStandard\""),
        "json should contain isStandard for @generated or @not_null"
    );
}
