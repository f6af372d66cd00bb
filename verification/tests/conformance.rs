use m3l::parser::parse_string;
use m3l::resolver::resolve;
use m3l::types::{FieldKind, M3lAst, ValidateOptions};
use m3l::validator::validate;

// ---------------------------------------------------------------------------
// Helper: Full pipeline (parse → resolve → validate → JSON)
// ---------------------------------------------------------------------------
fn full_pipeline(input: &str, source: &str) -> M3lAst {
    let parsed = parse_string(input, source);
    let ast = resolve(&[parsed], None);
    validate(&ast, &ValidateOptions { strict: false });
    ast
}

// ===========================================================================
// 10 conformance fixtures
// ===========================================================================

#[test]
fn conformance_basic_model() {
    let input = r#"## User
- id: identifier @pk
- name: string(100) @not_null
- email: string(320)? @unique
- is_active: boolean = true"#;

    let ast = full_pipeline(input, "basic-model.m3l.md");

    assert_eq!(ast.models.len(), 1);
    assert_eq!(ast.enums.len(), 0);
    assert!(ast.errors.is_empty());

    let user = &ast.models[0];
    assert_eq!(user.name, "User");
    assert_eq!(user.fields.len(), 4);

    // id field
    let id = &user.fields[0];
    assert_eq!(id.name, "id");
    assert_eq!(id.field_type.as_deref(), Some("identifier"));
    assert!(!id.nullable);
    assert!(id.attributes.iter().any(|a| a.name == "pk"));

    // name field
    let name = &user.fields[1];
    assert_eq!(name.name, "name");
    assert_eq!(name.field_type.as_deref(), Some("string"));
    assert_eq!(name.params.as_ref().unwrap().len(), 1);

    // email field - nullable
    let email = &user.fields[2];
    assert_eq!(email.name, "email");
    assert!(email.nullable);
    assert!(email.attributes.iter().any(|a| a.name == "unique"));

    // is_active - default value
    let is_active = &user.fields[3];
    assert_eq!(is_active.name, "is_active");
    assert_eq!(is_active.default_value.as_deref(), Some("true"));
}

#[test]
fn conformance_enum_standalone() {
    let input = r#"## Status ::enum
- active: "Active"
- inactive: "Inactive"
- pending: "Pending""#;

    let ast = full_pipeline(input, "enum-standalone.m3l.md");

    assert_eq!(ast.enums.len(), 1);
    assert_eq!(ast.models.len(), 0);
    assert!(ast.errors.is_empty());

    let status = &ast.enums[0];
    assert_eq!(status.name, "Status");
    assert_eq!(status.values.len(), 3);
    assert_eq!(status.values[0].name, "active");
    assert_eq!(status.values[1].name, "inactive");
    assert_eq!(status.values[2].name, "pending");
}

#[test]
fn conformance_inheritance() {
    let input = r#"## BaseModel
- id: identifier @pk
- created_at: timestamp = now()

## User : BaseModel
- name: string(100)
- email: string(320)"#;

    let ast = full_pipeline(input, "inheritance.m3l.md");

    assert_eq!(ast.models.len(), 2);
    assert!(ast.errors.is_empty());

    let user = ast.models.iter().find(|m| m.name == "User").unwrap();
    assert_eq!(user.inherits, vec!["BaseModel"]);
    // User should have 4 fields: 2 inherited + 2 own
    assert_eq!(user.fields.len(), 4);
    assert_eq!(user.fields[0].name, "id");
    assert_eq!(user.fields[1].name, "created_at");
    assert_eq!(user.fields[2].name, "name");
    assert_eq!(user.fields[3].name, "email");
}

#[test]
fn conformance_view() {
    let input = r#"## User
- id: identifier @pk
- name: string(100)
- department: string(50)

## ActiveUsers ::view
### Source
- from: User
- where: "is_active = true"
- order_by: "name asc""#;

    let ast = full_pipeline(input, "view.m3l.md");

    assert_eq!(ast.models.len(), 1);
    assert_eq!(ast.views.len(), 1);
    assert!(ast.errors.is_empty());

    let view = &ast.views[0];
    assert_eq!(view.name, "ActiveUsers");
    assert!(view.source_def.is_some());
    let src = view.source_def.as_ref().unwrap();
    assert_eq!(src.from.as_deref(), Some("User"));
    assert_eq!(src.where_clause.as_deref(), Some("is_active = true"));
    assert_eq!(src.order_by.as_deref(), Some("name asc"));
}

#[test]
fn conformance_framework_attrs() {
    let input = r#"## Account
- id: identifier @pk
- password: string(100) `[DataType(DataType.Password)]` `[JsonIgnore]`
- display_name: string(50)"#;

    let ast = full_pipeline(input, "framework-attrs.m3l.md");

    assert_eq!(ast.models.len(), 1);
    assert!(ast.errors.is_empty());

    let password = &ast.models[0].fields[1];
    assert_eq!(password.name, "password");
    let fw = password.framework_attrs.as_ref().unwrap();
    assert_eq!(fw.len(), 2);
    assert!(fw[0].raw.contains("DataType(DataType.Password)"));
    assert!(fw[1].raw.contains("JsonIgnore"));
}

#[test]
fn conformance_interface() {
    let input = r#"## Timestampable ::interface
- created_at: timestamp = now()
- updated_at: timestamp = now()

## Article : Timestampable
- id: identifier @pk
- title: string(200)
- content: text"#;

    let ast = full_pipeline(input, "interface.m3l.md");

    assert_eq!(ast.interfaces.len(), 1);
    assert_eq!(ast.models.len(), 1);
    assert!(ast.errors.is_empty());

    let iface = &ast.interfaces[0];
    assert_eq!(iface.name, "Timestampable");
    assert_eq!(iface.fields.len(), 2);

    let article = &ast.models[0];
    assert_eq!(article.name, "Article");
    assert_eq!(article.inherits, vec!["Timestampable"]);
    // 2 inherited + 3 own
    assert_eq!(article.fields.len(), 5);
    assert_eq!(article.fields[0].name, "created_at");
    assert_eq!(article.fields[1].name, "updated_at");
    assert_eq!(article.fields[2].name, "id");
}

#[test]
fn conformance_lookup_rollup() {
    let input = r#"## Customer
- id: identifier @pk
- name: string(100)

## Order
- id: identifier @pk
- customer_id: identifier @fk(Customer.id)
- total: decimal(10,2)

### Lookup
- customer_name: string @lookup(customer_id.name)

## OrderSummary
- id: identifier @pk
- customer_id: identifier @fk(Customer.id)

### Rollup
- order_count: integer @rollup(Order.customer_id, count)
- total_spent: decimal(12,2) @rollup(Order.customer_id, sum(total))"#;

    let ast = full_pipeline(input, "lookup-rollup.m3l.md");

    assert!(ast.errors.is_empty(), "errors: {:?}", ast.errors);

    let order = ast.models.iter().find(|m| m.name == "Order").unwrap();
    let cn = order
        .fields
        .iter()
        .find(|f| f.name == "customer_name")
        .unwrap();
    assert_eq!(cn.kind, FieldKind::Lookup);
    assert!(cn.lookup.is_some());
    assert_eq!(cn.lookup.as_ref().unwrap().path, "customer_id.name");

    let summary = ast
        .models
        .iter()
        .find(|m| m.name == "OrderSummary")
        .unwrap();
    let oc = summary
        .fields
        .iter()
        .find(|f| f.name == "order_count")
        .unwrap();
    assert_eq!(oc.kind, FieldKind::Rollup);
    assert!(oc.rollup.is_some());
    assert_eq!(oc.rollup.as_ref().unwrap().aggregate, "count");

    let ts = summary
        .fields
        .iter()
        .find(|f| f.name == "total_spent")
        .unwrap();
    assert_eq!(ts.rollup.as_ref().unwrap().aggregate, "sum");
    assert_eq!(ts.rollup.as_ref().unwrap().field.as_deref(), Some("total"));
}

#[test]
fn conformance_computed_field() {
    let input = r#"## Product
- id: identifier @pk
- price: decimal(10,2)
- quantity: integer

### Computed
- total_value: decimal(12,2) @computed("price * quantity")"#;

    let ast = full_pipeline(input, "computed-field.m3l.md");

    assert_eq!(ast.models.len(), 1);
    assert!(ast.errors.is_empty());

    let tv = ast.models[0]
        .fields
        .iter()
        .find(|f| f.name == "total_value")
        .unwrap();
    assert_eq!(tv.kind, FieldKind::Computed);
    assert!(tv.computed.is_some());
    assert_eq!(tv.computed.as_ref().unwrap().expression, "price * quantity");
}

#[test]
fn conformance_view_sql_block() {
    let input = "## User\n- id: identifier @pk\n- name: string(100)\n- department: string(50)\n- is_active: boolean = true\n\n## UserReport ::view\n### Source\n```sql\nFROM User u\nWHERE u.department = 'Engineering'\nORDER BY u.name ASC\n```\n\n- user_name: string @from(User.name)\n- dept: string @from(User.department)";

    let ast = full_pipeline(input, "view-sql-block.m3l.md");

    assert_eq!(ast.views.len(), 1);

    let view = &ast.views[0];
    assert_eq!(view.name, "UserReport");
    assert!(view.source_def.is_some());
    let src = view.source_def.as_ref().unwrap();
    assert!(src.raw_sql.is_some());
    assert!(src.raw_sql.as_ref().unwrap().contains("FROM User u"));
    assert_eq!(src.language_hint.as_deref(), Some("sql"));
}

#[test]
fn conformance_backtick_expression() {
    let input = r#"## BacktickExpr
- id: identifier @pk
- profit: decimal @computed(`(price - cost) / price * 100`)
- status: string = "active"
- created_at: timestamp = `now()`
- discount: decimal = `price * 0.9`"#;

    let ast = full_pipeline(input, "backtick-expression.m3l.md");

    assert_eq!(ast.models.len(), 1);
    assert!(ast.errors.is_empty());

    let model = &ast.models[0];

    // profit - computed with backtick expression
    let profit = model.fields.iter().find(|f| f.name == "profit").unwrap();
    assert_eq!(profit.kind, FieldKind::Computed);
    assert!(profit.computed.is_some());
    assert_eq!(
        profit.computed.as_ref().unwrap().expression,
        "(price - cost) / price * 100"
    );

    // created_at - expression default
    let ca = model
        .fields
        .iter()
        .find(|f| f.name == "created_at")
        .unwrap();
    assert_eq!(ca.default_value.as_deref(), Some("now()"));

    // discount - expression default
    let disc = model.fields.iter().find(|f| f.name == "discount").unwrap();
    assert_eq!(disc.default_value.as_deref(), Some("price * 0.9"));
}

