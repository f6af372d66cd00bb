use m3l::imports::detect_circular_imports;
use m3l::json::{field_node_to_json, m3l_ast_to_json};
use m3l::lexer::lex;
use m3l::lint::normalize;
use m3l::number::is_less;
use m3l::parser::parse_string;
use m3l::pipeline::{build_ast, parse, parse_multi, validate_content};
use m3l::resolver::resolve;
use m3l::text::{to_chars, trim_chars};
use m3l::types::{
    AttrArgValue, DefaultValueType, Diagnostic, DiagnosticSeverity, FieldKind, JsonValue, M3lAst,
    M3lFile, ModelType, NumberLit, ParamValue, ParsedFile, ProjectInfo, RollupDef, TokenType,
    ValidateJsonOptions, ValidateOptions, ValidateResult,
};
use m3l::validator::validate;

fn number(text: &str) -> NumberLit {
    NumberLit { text: text.to_string() }
}

fn check(input: &str, strict: bool) -> ValidateResult {
    let parsed = parse_string(input, "test.m3l.md");
    let ast = resolve(&[parsed], None);
    validate(&ast, &ValidateOptions { strict })
}

fn codes(list: &[Diagnostic]) -> Vec<&str> {
    list.iter().map(|d| d.code.as_str()).collect()
}

fn member<'a>(j: &'a JsonValue, key: &str) -> Option<&'a JsonValue> {
    match j {
        JsonValue::Object(members) => members.iter().find(|m| m.key == key).map(|m| &m.value),
        _ => None,
    }
}

#[test]
fn scenario_basic_model() {
    let ast = parse("## User\n- id: identifier @pk\n- name: string(100) @not_null", "a.m3l.md");
    assert_eq!(ast.models.len(), 1);
    assert_eq!(ast.models[0].name, "User");
    let fields = &ast.models[0].fields;
    assert_eq!(fields.len(), 2);
    assert_eq!(fields[0].field_type.as_deref(), Some("identifier"));
    assert_eq!(fields[1].params, Some(vec![ParamValue::Number(number("100"))]));
    assert_eq!(fields[0].attributes[0].name, "pk");
    assert_eq!(fields[0].attributes[0].is_standard, None);
    assert_eq!(fields[1].attributes[0].name, "not_null");
    assert_eq!(fields[1].attributes[0].is_standard, Some(true));
    assert!(ast.errors.is_empty());
}

#[test]
fn scenario_enum_standalone() {
    let ast = parse("## Status ::enum\n- active: \"Active\"\n- inactive: \"Inactive\"", "a.m3l.md");
    assert_eq!(ast.enums.len(), 1);
    assert_eq!(ast.enums[0].values.len(), 2);
    assert_eq!(ast.enums[0].values[0].description.as_deref(), Some("Active"));
    assert_eq!(ast.enums[0].values[1].description.as_deref(), Some("Inactive"));
}

#[test]
fn scenario_inheritance_keeps_location() {
    let input = "## BaseModel\n- id: identifier @pk\n\n## User : BaseModel\n- name: string(100)";
    let ast = parse(input, "a.m3l.md");
    let user = &ast.models[1];
    assert_eq!(user.fields.len(), 2);
    assert_eq!(user.fields[0].name, "id");
    assert_eq!(user.fields[0].loc.line, 2);
    assert_eq!(user.fields[1].name, "name");
    assert_eq!(user.fields[1].loc.line, 5);
}

#[test]
fn scenario_duplicate_across_namespaces() {
    let files = vec![
        M3lFile {
            path: "sales.m3l.md".into(),
            content: "# Namespace: sales\n## Product\n- id: identifier".into(),
        },
        M3lFile {
            path: "inventory.m3l.md".into(),
            content: "# Namespace: inventory\n## Product\n- id: identifier".into(),
        },
    ];
    let ast = parse_multi(&files);
    let ambiguous: Vec<&Diagnostic> =
        ast.errors.iter().filter(|e| e.code == "M3L-E008").collect();
    assert_eq!(ambiguous.len(), 1);
    assert_eq!(ambiguous[0].file, "inventory.m3l.md");
    assert_eq!(ambiguous[0].line, 2);
    assert_eq!(
        ambiguous[0].message,
        "Ambiguous model reference \"Product\" in namespaces sales, inventory"
    );
    // a name that is defined twice is a duplicate as well, whatever the namespaces
    let duplicates: Vec<&Diagnostic> = ast.errors.iter().filter(|e| e.code == "M3L-E005").collect();
    assert_eq!(duplicates.len(), 1);
    assert_eq!(duplicates[0].file, "inventory.m3l.md");
}

#[test]
fn scenario_rollup_without_reference() {
    let input = "## Customer\n- id: identifier @pk\n## Order\n- customer_id: identifier\n## Sum\n- n: integer @rollup(Order.customer_id, count)";
    let result = check(input, false);
    let found: Vec<&Diagnostic> = result.errors.iter().filter(|e| e.code == "M3L-E001").collect();
    assert_eq!(found.len(), 1);
    assert_eq!(found[0].line, 6);
    assert_eq!(
        found[0].message,
        "@rollup on \"n\" targets \"Order.customer_id\" which has no @reference or @fk attribute"
    );
}

#[test]
fn scenario_circular_import() {
    let file_imports = vec![
        ("a".to_string(), vec!["b".to_string()]),
        ("b".to_string(), vec!["c".to_string()]),
        ("c".to_string(), vec!["a".to_string()]),
    ];
    let errors = detect_circular_imports(&file_imports);
    assert_eq!(errors.len(), 1);
    assert_eq!(errors[0].code, "M3L-E003");
    assert_eq!(errors[0].file, "c");
    assert_eq!(errors[0].message, "Circular import detected: a \u{2192} b \u{2192} c \u{2192} a");
}

#[test]
fn scenario_strict_long_lookup() {
    let input =
        "## A\n- fk: identifier @reference(B)\n### Lookup\n- x: string @lookup(fk.B.C.D.name)";
    let strict = check(input, true);
    let found: Vec<&Diagnostic> =
        strict.warnings.iter().filter(|w| w.code == "M3L-W004").collect();
    assert_eq!(found.len(), 1);
    assert_eq!(found[0].message, "Lookup chain \"fk.B.C.D.name\" exceeds 3 hops (5 hops)");
    let lax = check(input, false);
    assert!(!lax.warnings.iter().any(|w| w.code == "M3L-W004"));
}

#[test]
fn scenario_override() {
    let ast = parse(
        "## Base ::interface\n- name: string\n## Child : Base\n- name: text @override",
        "a.m3l.md",
    );
    assert_eq!(ast.models[0].fields.len(), 1);
    assert_eq!(ast.models[0].fields[0].name, "name");
    assert_eq!(ast.models[0].fields[0].field_type.as_deref(), Some("text"));
}

#[test]
fn tokens_are_in_line_order() {
    let input = "## A\n\n- x: string\n```sql\nSELECT 1\n```\n  > more\n- y: string\r\n---";
    let tokens = lex(input, "a.m3l.md");
    let lines: Vec<usize> = tokens.iter().map(|t| t.line).collect();
    assert_eq!(lines, vec![1, 2, 3, 8, 9]);
    assert_eq!(tokens[3].raw, "- y: string");
    assert_eq!(tokens[2].data.code_block.as_ref().unwrap().content, "SELECT 1");
    assert_eq!(tokens[2].data.blockquote_desc.as_deref(), Some("more"));
    assert_eq!(tokens[4].token_type, TokenType::HorizontalRule);
}

#[test]
fn field_kind_matches_details() {
    let input = "## Order\n- customer_id: identifier @fk(Customer.id)\n- a: string @lookup(customer_id.name)\n- b: integer @rollup(Order.customer_id, count)\n- c: decimal @computed(\"x * 2\")\n- d: string";
    let ast = parse(input, "a.m3l.md");
    let f = &ast.models[0].fields;
    assert_eq!(f[1].kind, FieldKind::Lookup);
    assert!(f[1].lookup.is_some() && f[1].rollup.is_none() && f[1].computed.is_none());
    assert_eq!(f[2].kind, FieldKind::Rollup);
    assert!(f[2].lookup.is_none() && f[2].rollup.is_some() && f[2].computed.is_none());
    assert_eq!(f[3].kind, FieldKind::Computed);
    assert!(f[3].lookup.is_none() && f[3].rollup.is_none() && f[3].computed.is_some());
    assert_eq!(f[4].kind, FieldKind::Stored);
    assert!(f[4].lookup.is_none() && f[4].rollup.is_none() && f[4].computed.is_none());
}

#[test]
fn diagnostics_name_the_file_given() {
    let options = ValidateJsonOptions { strict: true, filename: "given.m3l.md".into() };
    let input = "## A : Missing\n- x: Unknown\n- x: datetime";
    let result = validate_content(input, &options);
    assert!(!result.errors.is_empty());
    assert!(!result.warnings.is_empty());
    assert!(result.errors.iter().all(|d| d.file == "given.m3l.md"));
    assert!(result.warnings.iter().all(|d| d.file == "given.m3l.md"));
    let unnamed = validate_content(input, &ValidateJsonOptions::default());
    assert!(unnamed.errors.iter().all(|d| d.file == "input.m3l.md"));
}

#[test]
fn duplicate_field_is_reported() {
    let ast = parse("## A\n- x: string\n- y: string\n- x: integer", "a.m3l.md");
    let found: Vec<&Diagnostic> = ast.errors.iter().filter(|e| e.code == "M3L-E005").collect();
    assert_eq!(found.len(), 1);
    assert_eq!(found[0].line, 4);
    assert_eq!(
        found[0].message,
        "Duplicate field name \"x\" in model \"A\" (first at line 2)"
    );
    let result = validate(&ast, &ValidateOptions { strict: false });
    assert_eq!(codes(&result.errors), vec!["M3L-E005", "M3L-E006"]);
    assert_eq!(result.errors[1].message, "Duplicate field name \"x\" in model \"A\"");
}

#[test]
fn json_keys_of_tree_and_field() {
    let ast = parse("## User\n- tags: string?[]", "a.m3l.md");
    let json = m3l_ast_to_json(&ast);
    let keys: Vec<&str> = match &json {
        JsonValue::Object(m) => m.iter().map(|x| x.key.as_str()).collect(),
        _ => vec![],
    };
    assert_eq!(
        keys,
        vec![
            "parserVersion",
            "astVersion",
            "project",
            "sources",
            "models",
            "enums",
            "interfaces",
            "views",
            "attributeRegistry",
            "errors",
            "warnings"
        ]
    );
    assert_eq!(member(&json, "parserVersion"), Some(&JsonValue::String("0.4.0".into())));
    assert_eq!(member(&json, "astVersion"), Some(&JsonValue::String("1.0".into())));
    assert_eq!(member(&json, "parser_version"), None);
    let field = field_node_to_json(&ast.models[0].fields[0]);
    assert_eq!(member(&field, "arrayItemNullable"), Some(&JsonValue::Bool(true)));
    assert_eq!(member(&field, "nullable"), Some(&JsonValue::Bool(false)));
    assert_eq!(member(&field, "array"), Some(&JsonValue::Bool(true)));
    assert_eq!(member(&field, "kind"), Some(&JsonValue::String("stored".into())));
    assert_eq!(member(&field, "type"), Some(&JsonValue::String("string".into())));
    assert_eq!(member(&field, "label"), None);
    assert_eq!(member(&field, "defaultValue"), None);
    assert!(member(&field, "loc").is_some());
}

#[test]
fn type_modifiers() {
    let input = "## T\n- a: string?\n- b: string[]\n- c: string[]?\n- d: string?[]\n- e: string?[]?\n- f: string";
    let ast = parse(input, "a.m3l.md");
    let flags: Vec<(bool, bool, bool)> = ast.models[0]
        .fields
        .iter()
        .map(|f| (f.nullable, f.array, f.array_item_nullable))
        .collect();
    assert_eq!(
        flags,
        vec![
            (true, false, false),
            (false, true, false),
            (true, true, false),
            (false, true, true),
            (true, true, true),
            (false, false, false),
        ]
    );
}

#[test]
fn default_values() {
    let input = "## T\n- a: string = \"x y\"\n- b: timestamp = `now()`\n- c: integer = 5\n- d: timestamp = now()\n- e: string = f(a, \"b c\") @unique";
    let ast = parse(input, "a.m3l.md");
    let f = &ast.models[0].fields;
    assert_eq!(f[0].default_value.as_deref(), Some("x y"));
    assert_eq!(f[0].default_value_type, Some(DefaultValueType::Literal));
    assert_eq!(f[1].default_value.as_deref(), Some("now()"));
    assert_eq!(f[1].default_value_type, Some(DefaultValueType::Expression));
    assert_eq!(f[2].default_value.as_deref(), Some("5"));
    assert_eq!(f[2].default_value_type, Some(DefaultValueType::Literal));
    assert_eq!(f[3].default_value_type, Some(DefaultValueType::Expression));
    assert_eq!(f[4].default_value.as_deref(), Some("f(a, \"b c\")"));
    assert_eq!(f[4].attributes[0].name, "unique");
}

#[test]
fn attribute_arguments() {
    let tokens = lex(
        "- x: string @a(\"q, r\", 'single', `back tick`, 1.5, -2, true, platform: \"pg\", f(1, 2), word) !! @b ?",
        "a.m3l.md",
    );
    let attrs = &tokens[0].data.attributes;
    assert_eq!(attrs.len(), 2);
    assert_eq!(
        attrs[0].args,
        vec![
            AttrArgValue::String("q, r".into()),
            AttrArgValue::String("single".into()),
            AttrArgValue::String("`back tick`".into()),
            AttrArgValue::Number(number("1.5")),
            AttrArgValue::Number(number("-2")),
            AttrArgValue::Bool(true),
            AttrArgValue::String("platform: pg".into()),
            AttrArgValue::String("f(1, 2)".into()),
            AttrArgValue::String("word".into()),
        ]
    );
    assert_eq!(attrs[0].cascade.as_deref(), Some("!!"));
    assert_eq!(attrs[1].cascade.as_deref(), Some("?"));
}

#[test]
fn comment_and_framework_attributes_are_taken_off() {
    let tokens = lex("- pw: string(8) `[JsonIgnore]` @unique # keep secret", "a.m3l.md");
    let d = &tokens[0].data;
    assert_eq!(d.name.as_deref(), Some("pw"));
    assert_eq!(d.field_type.as_deref(), Some("string"));
    assert_eq!(d.comment.as_deref(), Some("keep secret"));
    assert_eq!(d.framework_attrs, vec!["[JsonIgnore]"]);
    assert_eq!(d.attributes.len(), 1);
    let ast = parse("## A\n- pw: string(8) `[Max(3, 4)]` # keep secret", "a.m3l.md");
    let f = &ast.models[0].fields[0];
    assert_eq!(f.description.as_deref(), Some("keep secret"));
    let fw = f.framework_attrs.as_ref().unwrap();
    assert_eq!(fw[0].raw, "[Max(3, 4)]");
    assert_eq!(fw[0].content, "Max(3, 4)");
    let parsed = fw[0].parsed.as_ref().unwrap();
    assert_eq!(parsed.name, "Max");
    assert_eq!(
        parsed.arguments,
        vec![AttrArgValue::Number(number("3")), AttrArgValue::Number(number("4"))]
    );
}

#[test]
fn headings() {
    let tokens = lex(
        "# Title\n## Order(Orders) : Base, Audit @public @meta(version, 2)\n## Sales ::view @materialized \"Totals\"\n## Kind(K) ::enum : Base \"What kind\"",
        "a.m3l.md",
    );
    assert_eq!(tokens[0].token_type, TokenType::Text);
    assert_eq!(tokens[0].data.name.as_deref(), Some("# Title"));
    assert_eq!(tokens[1].token_type, TokenType::Model);
    assert_eq!(tokens[1].data.name.as_deref(), Some("Order"));
    assert_eq!(tokens[1].data.label.as_deref(), Some("Orders"));
    assert_eq!(tokens[1].data.inherits, vec!["Base", "Audit"]);
    assert_eq!(tokens[1].data.attributes.len(), 2);
    assert_eq!(tokens[1].data.attributes[1].name, "meta");
    assert_eq!(tokens[1].data.attributes[1].args.len(), 2);
    assert_eq!(tokens[2].token_type, TokenType::View);
    assert_eq!(tokens[2].data.materialized, Some(true));
    assert_eq!(tokens[2].data.description.as_deref(), Some("Totals"));
    assert_eq!(tokens[3].token_type, TokenType::Enum);
    assert_eq!(tokens[3].data.label.as_deref(), Some("K"));
    assert_eq!(tokens[3].data.inherits, vec!["Base"]);
    assert_eq!(tokens[3].data.description.as_deref(), Some("What kind"));
}

#[test]
fn sections_of_a_model() {
    let input = "## Post\n- id: identifier\n- author_id: identifier\n- @index(author_id)\n- @unique(id, author_id)\n- @relation(author, -> User)\n- @behavior(soft_delete)\n- @audit(on)\n### Indexes\n- idx_author(Author)\n  - fields: [author_id, id]\n  - unique: true\n### Relations\n- author > User via author_id\n  - from: author_id\n### Metadata\n- version: 2\n- ratio: 1.5\n- active: true\n- owner: \"team\"\n### Behaviors\n- before_save\n### Notes\n- first: hello";
    let parsed = parse_string(input, "a.m3l.md");
    let s = &parsed.models[0].sections;
    assert_eq!(s.indexes.len(), 3);
    assert_eq!(member(&s.indexes[0], "type"), Some(&JsonValue::String("directive".into())));
    assert_eq!(member(&s.indexes[0], "unique"), Some(&JsonValue::Bool(false)));
    assert_eq!(member(&s.indexes[0], "args"), Some(&JsonValue::String("author_id".into())));
    assert_eq!(member(&s.indexes[1], "unique"), Some(&JsonValue::Bool(true)));
    assert_eq!(
        member(&s.indexes[1], "args"),
        Some(&JsonValue::Array(vec![
            JsonValue::String("id".into()),
            JsonValue::String("author_id".into())
        ]))
    );
    assert_eq!(member(&s.indexes[2], "name"), Some(&JsonValue::String("idx_author".into())));
    assert_eq!(member(&s.indexes[2], "label"), Some(&JsonValue::String("Author".into())));
    assert_eq!(
        member(&s.indexes[2], "fields"),
        Some(&JsonValue::Array(vec![
            JsonValue::String("author_id".into()),
            JsonValue::String("id".into())
        ]))
    );
    assert_eq!(member(&s.indexes[2], "unique"), Some(&JsonValue::Bool(true)));
    assert_eq!(s.relations.len(), 2);
    assert_eq!(
        member(&s.relations[1], "raw"),
        Some(&JsonValue::String("author > User via author_id".into()))
    );
    assert_eq!(member(&s.relations[1], "from"), Some(&JsonValue::String("author_id".into())));
    let loc = member(&s.relations[1], "loc").unwrap();
    assert_eq!(member(loc, "file"), Some(&JsonValue::String("a.m3l.md".into())));
    assert_eq!(member(loc, "line"), Some(&JsonValue::UInt(14)));
    assert_eq!(s.behaviors.len(), 2);
    assert_eq!(member(&s.behaviors[1], "name"), Some(&JsonValue::String("before_save".into())));
    let meta = JsonValue::Object(s.metadata.clone());
    assert_eq!(member(&meta, "version"), Some(&JsonValue::Int(2)));
    assert_eq!(member(&meta, "ratio"), Some(&JsonValue::Number(number("1.5"))));
    assert_eq!(member(&meta, "active"), Some(&JsonValue::Bool(true)));
    assert_eq!(member(&meta, "owner"), Some(&JsonValue::String("team".into())));
    let custom = JsonValue::Object(s.custom.clone());
    assert!(matches!(member(&custom, "audit"), Some(JsonValue::Array(a)) if a.len() == 1));
    match member(&custom, "Notes") {
        Some(JsonValue::Array(items)) => {
            assert_eq!(member(&items[0], "name"), Some(&JsonValue::String("first".into())));
            assert_eq!(member(&items[0], "value"), Some(&JsonValue::String("hello".into())));
        }
        other => panic!("no notes: {:?}", other),
    }
}

#[test]
fn view_source_and_refresh() {
    let input = "## Sales ::view @materialized\n### Source\n- from: Order\n- join: \"Customer on Order.customer_id = Customer.id\"\n- join: Region\n- where: \"total > 0\"\n- group_by: \"[region, year]\"\n- order_by: \"year desc\"\n- total: decimal\n- from: string\n### Refresh\n- strategy: incremental\n- interval: \"1 hour\"";
    let parsed = parse_string(input, "a.m3l.md");
    let view = &parsed.views[0];
    assert_eq!(view.model_type, ModelType::View);
    assert_eq!(view.materialized, Some(true));
    let src = view.source_def.as_ref().unwrap();
    assert_eq!(src.from.as_deref(), Some("Order"));
    let joins = src.joins.as_ref().unwrap();
    assert_eq!(joins[0].model, "Customer");
    assert_eq!(joins[0].on, "Order.customer_id = Customer.id");
    assert_eq!(joins[1].model, "Region");
    assert_eq!(joins[1].on, "");
    assert_eq!(src.where_clause.as_deref(), Some("total > 0"));
    assert_eq!(src.group_by, Some(vec!["region".to_string(), "year".to_string()]));
    assert_eq!(src.order_by.as_deref(), Some("year desc"));
    let names: Vec<&str> = view.fields.iter().map(|f| f.name.as_str()).collect();
    assert_eq!(names, vec!["total", "from"]);
    let refresh = view.refresh.as_ref().unwrap();
    assert_eq!(refresh.strategy, "incremental");
    assert_eq!(refresh.interval.as_deref(), Some("1 hour"));
}

#[test]
fn nested_items_under_fields() {
    let input = "## T\n- address: object\n  - street: string(100) @required\n  - zip: string?\n- state: enum\n  - open: \"Open\"\n  - closed\n- owner: identifier\n  - reference: User\n  - type: integer[]?\n  - description: \"who owns it\"\n  - weight: 3";
    let parsed = parse_string(input, "a.m3l.md");
    let f = &parsed.models[0].fields;
    let sub = f[0].fields.as_ref().unwrap();
    assert_eq!(sub.len(), 2);
    assert_eq!(sub[0].name, "street");
    assert_eq!(sub[0].field_type.as_deref(), Some("string"));
    assert_eq!(sub[0].attributes[0].name, "required");
    assert!(sub[1].nullable);
    let values = f[1].enum_values.as_ref().unwrap();
    assert_eq!(values[0].name, "open");
    assert_eq!(values[0].description.as_deref(), Some("Open"));
    assert_eq!(f[2].field_type.as_deref(), Some("integer"));
    assert!(f[2].nullable && f[2].array);
    assert_eq!(f[2].description.as_deref(), Some("who owns it"));
    let names: Vec<&str> = f[2].attributes.iter().map(|a| a.name.as_str()).collect();
    assert_eq!(names, vec!["reference", "weight"]);
    assert_eq!(f[2].attributes[0].is_standard, Some(true));
    assert_eq!(
        f[2].attributes[1].args,
        Some(vec![AttrArgValue::Number(number("3"))])
    );
}

#[test]
fn computed_definitions() {
    let input = "## T\n- a: decimal @computed_raw(\"SUM(x)\", platform: \"pg\")\n- b: decimal @computed\n```sql\nSELECT 1\n```\n- c: integer @rollup(Order.customer_id, sum(total), 'where: \"paid = true\"')\n- d: integer @rollup(Order.customer_id, count, where: \"paid\")";
    let parsed = parse_string(input, "a.m3l.md");
    let f = &parsed.models[0].fields;
    let a = f[0].computed.as_ref().unwrap();
    assert_eq!(a.expression, "SUM(x)");
    assert_eq!(a.platform.as_deref(), Some("pg"));
    let b = f[1].computed.as_ref().unwrap();
    assert_eq!(b.expression, "SELECT 1");
    assert_eq!(f[1].kind, FieldKind::Computed);
    let c = f[2].rollup.as_ref().unwrap();
    assert_eq!(c.target, "Order");
    assert_eq!(c.fk, "customer_id");
    assert_eq!(c.aggregate, "sum");
    assert_eq!(c.field.as_deref(), Some("total"));
    assert_eq!(c.where_clause.as_deref(), Some("paid = true"));
    let d = f[3].rollup.as_ref().unwrap();
    assert_eq!(d.aggregate, "count");
    assert_eq!(d.field, None);
    assert_eq!(d.where_clause.as_deref(), Some("paid"));
}

#[test]
fn rollup_with_condition() {
    let input = "## S\n- n: integer @rollup(Order.customer_id, count, where: \"active = true\")";
    let parsed = parse_string(input, "t.m3l.md");
    let f = &parsed.models[0].fields[0];
    assert_eq!(f.kind, FieldKind::Rollup);
    assert_eq!(
        f.rollup,
        Some(RollupDef {
            target: "Order".into(),
            fk: "customer_id".into(),
            aggregate: "count".into(),
            field: None,
            where_clause: Some("active = true".into()),
        })
    );
    assert_eq!(f.lookup, None);
    assert_eq!(f.computed, None);
}

#[test]
fn field_keeps_the_definition_of_its_kind_only() {
    let parsed = parse_string("## M\n- x: string @lookup(a.b) @rollup(T.fk, count)", "t.m3l.md");
    let f = &parsed.models[0].fields[0];
    assert_eq!(f.kind, FieldKind::Lookup);
    assert_eq!(f.lookup.as_ref().map(|l| l.path.as_str()), Some("a.b"));
    assert_eq!(f.rollup, None);
    assert_eq!(f.computed, None);
    let parsed = parse_string(
        "## M\n- y: decimal @computed(\"a + b\") @rollup(T.fk, count)\n### Lookup\n- z: string",
        "t.m3l.md",
    );
    let y = &parsed.models[0].fields[0];
    assert_eq!(y.kind, FieldKind::Rollup);
    assert!(y.rollup.is_some());
    assert_eq!(y.computed, None);
    let z = &parsed.models[0].fields[1];
    assert_eq!(z.kind, FieldKind::Lookup);
    assert!(z.lookup.is_none() && z.rollup.is_none() && z.computed.is_none());
}

#[test]
fn comment_overrides_description() {
    let parsed = parse_string(
        "## M\n- a: string \"described\" # commented\n- b: string \"described\"\n- c: string \"described\" # commented\n  > quoted",
        "t.m3l.md",
    );
    let f = &parsed.models[0].fields;
    assert_eq!(f[0].description.as_deref(), Some("commented"));
    assert_eq!(f[1].description.as_deref(), Some("described"));
    assert_eq!(f[2].description.as_deref(), Some("quoted"));
}

#[test]
fn missing_foreign_keys_are_errors() {
    let rollup = check(
        "## Order\n- id: identifier\n## Sum\n- n: integer @rollup(Order.customer_id, count)",
        false,
    );
    let found: Vec<&Diagnostic> = rollup.errors.iter().filter(|e| e.code == "M3L-E001").collect();
    assert_eq!(found.len(), 1);
    assert_eq!(found[0].line, 4);
    assert_eq!(
        found[0].message,
        "@rollup on \"n\" targets \"Order.customer_id\" which does not exist"
    );
    let no_model = check("## Sum\n- n: integer @rollup(Order.customer_id, count)", false);
    assert_eq!(codes(&no_model.errors), vec!["M3L-E001"]);
    let lookup = check("## A\n- id: identifier\n- n: string @lookup(owner.name)", false);
    assert_eq!(codes(&lookup.errors), vec!["M3L-E002"]);
    assert_eq!(
        lookup.errors[0].message,
        "@lookup on \"n\" references FK \"owner\" which does not exist"
    );
    let short = check("## A\n- id: identifier\n- n: string @lookup(owner)", false);
    assert_eq!(codes(&short.errors), Vec::<&str>::new());
    let relation = check("## A\n- id: identifier\n### Relations\n- owner > User via owner_id", false);
    assert_eq!(codes(&relation.errors), vec!["M3L-E010"]);
    assert_eq!(
        relation.errors[0].message,
        "Relations entry references FK \"owner_id\" which does not exist in model \"A\""
    );
    let fine = check(
        "## A\n- owner_id: identifier @fk(User.id)\n- n: string @lookup(owner_id.name)\n- c: integer @rollup(A.owner_id, count)\n### Relations\n- owner > User via owner_id",
        false,
    );
    assert_eq!(codes(&fine.errors), Vec::<&str>::new());
}

#[test]
fn attribute_definitions() {
    let input = "## @priority ::attribute\n> How urgent\n- target: [model, field, other]\n- type: number\n- range: [1, 10]\n- required: true\n- default: 5\n## flag ::attribute\n- range: 1..x";
    let parsed = parse_string(input, "a.m3l.md");
    let r = &parsed.attribute_registry;
    assert_eq!(r.len(), 2);
    assert_eq!(r[0].name, "priority");
    assert_eq!(r[0].description.as_deref(), Some("How urgent"));
    assert_eq!(r[0].target, vec!["model", "field"]);
    assert_eq!(r[0].attr_type, "number");
    assert_eq!(r[0].range, Some((number("1"), number("10"))));
    assert!(r[0].required);
    assert_eq!(r[0].default_value, Some(AttrArgValue::Number(number("5"))));
    assert_eq!(r[1].target, vec!["field"]);
    assert_eq!(r[1].attr_type, "boolean");
    assert_eq!(r[1].range, None);
    assert!(!r[1].required);
}

#[test]
fn inheritance_diamond_and_cycle() {
    let input = "## Root ::interface\n- id: identifier\n## Left : Root\n- l: string\n## Right : Root\n- id: long\n- r: string\n## Leaf : Left, Right\n- x: string\n## Ping : Pong\n- p: string\n## Pong : Ping\n- q: string";
    let ast = parse(input, "a.m3l.md");
    let leaf = ast.models.iter().find(|m| m.name == "Leaf").unwrap();
    let names: Vec<&str> = leaf.fields.iter().map(|f| f.name.as_str()).collect();
    assert_eq!(names, vec!["id", "l", "r", "x"]);
    assert_eq!(leaf.fields[0].field_type.as_deref(), Some("identifier"));
    let ping = ast.models.iter().find(|m| m.name == "Ping").unwrap();
    let names: Vec<&str> = ping.fields.iter().map(|f| f.name.as_str()).collect();
    assert_eq!(names, vec!["p", "q", "p"]);
    let pong = ast.models.iter().find(|m| m.name == "Pong").unwrap();
    let names: Vec<&str> = pong.fields.iter().map(|f| f.name.as_str()).collect();
    assert_eq!(names, vec!["q", "p", "q"]);
    assert!(!ast.errors.iter().any(|e| e.code == "M3L-E007"));
}

#[test]
fn resolver_errors() {
    let f1 = parse_string("## A : Nowhere\n- x: string\n## B ::enum\n- one", "a.m3l.md");
    let f2 = parse_string("## A\n- y: string\n## B ::interface\n- z: string", "b.m3l.md");
    let ast = resolve(&[f1, f2], Some(ProjectInfo { name: Some("p".into()), version: None }));
    assert_eq!(codes(&ast.errors), vec!["M3L-E005", "M3L-E005", "M3L-E007"]);
    assert_eq!(ast.errors[0].file, "b.m3l.md");
    assert_eq!(
        ast.errors[0].message,
        "Duplicate model name \"A\" (first defined in a.m3l.md:1)"
    );
    assert_eq!(
        ast.errors[1].message,
        "Duplicate interface name \"B\" (first defined in a.m3l.md:3)"
    );
    assert_eq!(
        ast.errors[2].message,
        "Unresolved inheritance reference \"Nowhere\" in model \"A\""
    );
    assert_eq!(ast.sources, vec!["a.m3l.md", "b.m3l.md"]);
    assert_eq!(ast.project.name.as_deref(), Some("p"));
    assert_eq!(ast.parser_version, "0.4.0");
    assert_eq!(ast.ast_version, "1.0");
}

#[test]
fn validator_errors() {
    let input = "## A\n- k: identifier\n- n: string @lookup(k.B.name)\n- t: Unknown\n### Relations\n- owner > User via k\n## V ::view\n### Source\n- from: Nothing";
    let result = check(input, false);
    assert_eq!(codes(&result.errors), vec!["M3L-E002", "M3L-E004", "M3L-E009", "M3L-E010"]);
    assert_eq!(
        result.errors[0].message,
        "@lookup on \"n\" references FK \"k\" which has no @reference or @fk attribute"
    );
    assert_eq!(
        result.errors[1].message,
        "View \"V\" references model \"Nothing\" which is not defined"
    );
    assert_eq!(
        result.errors[2].message,
        "Undefined type \"Unknown\" in field \"t\" of model \"A\""
    );
    assert_eq!(
        result.errors[3].message,
        "Relations entry references FK \"k\" which has no @reference or @fk attribute in model \"A\""
    );
    assert_eq!(result.errors[3].line, 6);
}

#[test]
fn validator_warnings() {
    let input = "## level ::attribute\n- type: number\n- range: 1..10\n## A\n- a: datetime @restrict\n- b: integer @level(high)\n- c: integer @level(0.5) @level(1e1) @level(10.01)";
    let result = check(input, false);
    assert_eq!(
        codes(&result.warnings),
        vec!["M3L-W003", "M3L-W003", "M3L-W005", "M3L-W006", "M3L-W006"]
    );
    assert_eq!(
        result.warnings[0].message,
        "Deprecated type \"datetime\" in field \"a\" \u{2014} use \"timestamp\" instead"
    );
    assert_eq!(
        result.warnings[2].message,
        "Attribute \"@level\" expects number argument but got string in field \"b\" of model \"A\""
    );
    assert_eq!(
        result.warnings[3].message,
        "Attribute \"@level\" argument 0.5 is outside range [1, 10] in field \"c\" of model \"A\""
    );
    assert!(result.warnings[4].message.contains("argument 10.01 is outside"));
}

#[test]
fn strict_warnings() {
    let long = "d".repeat(80);
    let input = format!("## A\n- f(L): string? = 1 @unique \"{}\"\n- g: string", long);
    let result = check(&input, true);
    assert_eq!(codes(&result.warnings), vec!["M3L-W001"]);
    // 2 + "f" + ("L" + 2) + (2 + "string") + 1 + (3 + "1") + (2 + "unique") + (3 + 80)
    assert_eq!(
        result.warnings[0].message,
        "Field \"f\" line length (~110 chars) exceeds 80 character guideline"
    );
    assert!(check(&input, false).warnings.is_empty());
}

#[test]
fn numbers_compare_by_value() {
    assert!(is_less("1", "10"));
    assert!(is_less("9", "10"));
    assert!(!is_less("10", "9"));
    assert!(is_less("0.5", "1"));
    assert!(is_less("-3", "-2.5"));
    assert!(is_less("-1", "0"));
    assert!(!is_less("0", "-0"));
    assert!(!is_less("1.0", "1"));
    assert!(is_less("1e1", "10.01"));
    assert!(is_less("99", "1e2"));
    assert!(is_less("5", "inf"));
    assert!(!is_less("nan", "1"));
    assert!(!is_less("a", "1"));
}

#[test]
fn build_ast_needs_files() {
    let none: Vec<M3lFile> = Vec::new();
    assert_eq!(
        build_ast(&none, "some/dir", None).unwrap_err(),
        "No M3L files (.m3l, .m3l.md, .md) found at: some/dir"
    );
    let files = vec![M3lFile { path: "a".into(), content: "# Namespace: shop\n## A".into() }];
    let ast: M3lAst = build_ast(&files, "a", None).unwrap();
    assert_eq!(ast.project.name.as_deref(), Some("shop"));
    assert_eq!(ast.models.len(), 1);
    let parsed: ParsedFile = parse_string("# Namespace: shop\n## A", "a");
    assert_eq!(parsed.namespace.as_deref(), Some("shop"));
}

#[test]
fn white_space_and_case_come_from_std() {
    assert_eq!(trim_chars(&to_chars(" \t a b\u{a0}\n")), to_chars("a b"));
    assert_eq!(normalize("Created_AT"), "created");
    assert_eq!(normalize("ID"), "id");
}

#[test]
fn view_inherits_like_a_model() {
    let input = "## Base ::interface\n- id: identifier @pk\n## Stamped : Base\n- at: timestamp\n## Recent ::view : Stamped, Missing\n- n: integer\n- id: long @override";
    let ast = resolve(&[parse_string(input, "a.m3l.md")], None);
    let view = &ast.views[0];
    assert_eq!(view.inherits, vec!["Stamped", "Missing"]);
    let names: Vec<&str> = view.fields.iter().map(|f| f.name.as_str()).collect();
    assert_eq!(names, vec!["at", "n", "id"]);
    assert_eq!(view.fields[0].loc.line, 4);
    assert_eq!(view.fields[2].field_type.as_deref(), Some("long"));
    assert_eq!(codes(&ast.errors), vec!["M3L-E007"]);
    assert_eq!(
        ast.errors[0].message,
        "Unresolved inheritance reference \"Missing\" in model \"Recent\""
    );
}

#[test]
fn import_check_finds_circles_only() {
    let graph = |edges: &[(&str, &[&str])]| -> Vec<(String, Vec<String>)> {
        edges
            .iter()
            .map(|(s, i)| (s.to_string(), i.iter().map(|x| x.to_string()).collect()))
            .collect()
    };
    let own = detect_circular_imports(&graph(&[("a", &["a"])]));
    assert_eq!(codes(&own), vec!["M3L-E003"]);
    assert_eq!((own[0].file.as_str(), own[0].line, own[0].col), ("a", 1, 1));
    let tree = detect_circular_imports(&graph(&[
        ("a", &["b", "c", "elsewhere"]),
        ("b", &["d"]),
        ("c", &["d"]),
        ("d", &[]),
    ]));
    assert_eq!(codes(&tree), Vec::<&str>::new());
    let late = detect_circular_imports(&graph(&[("a", &["b"]), ("b", &["c"]), ("c", &["b"])]));
    assert_eq!(codes(&late), vec!["M3L-E003"]);
    assert_eq!(late[0].file, "c");
}

#[test]
fn diagnostics_have_the_severity_of_their_list() {
    let input = "## A : Nowhere\n- k: identifier\n- k: string\n- n: string @lookup(k.B.C.D.name)\n- t: Unknown\n- d: datetime @cascade\n## A\n- x: string";
    let ast = resolve(&[parse_string(input, "a.m3l.md")], None);
    let result = validate(&ast, &ValidateOptions { strict: true });
    assert!(!result.errors.is_empty() && !result.warnings.is_empty());
    assert!(result.errors.iter().all(|d| d.severity == DiagnosticSeverity::Error));
    assert!(result.warnings.iter().all(|d| d.severity == DiagnosticSeverity::Warning));
}
