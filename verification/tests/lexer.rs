use m3l::attrs::parse_attr_args_string;
use m3l::field_line::parse_type_and_attrs;
use m3l::lexer::lex;
use m3l::types::{AttrArgValue, NumberLit, TokenData, TokenType};

fn number(text: &str) -> AttrArgValue {
    AttrArgValue::Number(NumberLit { text: text.to_string() })
}

#[test]
fn lex_empty() {
    let tokens = lex("", "test.m3l.md");
    assert_eq!(tokens.len(), 1); // one blank line
    assert_eq!(tokens[0].token_type, TokenType::Blank);
}

#[test]
fn lex_namespace() {
    let tokens = lex("# Namespace: sample.ecommerce", "test.m3l.md");
    assert_eq!(tokens.len(), 1);
    assert_eq!(tokens[0].token_type, TokenType::Namespace);
    assert_eq!(tokens[0].data.name.as_deref(), Some("sample.ecommerce"));
    assert!(tokens[0].data.is_directive); // is_namespace
}

#[test]
fn lex_model() {
    let tokens = lex("## User : BaseModel", "test.m3l.md");
    assert_eq!(tokens.len(), 1);
    assert_eq!(tokens[0].token_type, TokenType::Model);
    assert_eq!(tokens[0].data.name.as_deref(), Some("User"));
    assert_eq!(tokens[0].data.inherits, vec!["BaseModel"]);
}

#[test]
fn lex_enum_type_indicator() {
    let tokens = lex("## Status ::enum", "test.m3l.md");
    assert_eq!(tokens.len(), 1);
    assert_eq!(tokens[0].token_type, TokenType::Enum);
    assert_eq!(tokens[0].data.name.as_deref(), Some("Status"));
}

#[test]
fn lex_field() {
    let tokens = lex("- email: string @required", "test.m3l.md");
    assert_eq!(tokens.len(), 1);
    assert_eq!(tokens[0].token_type, TokenType::Field);
    assert_eq!(tokens[0].data.name.as_deref(), Some("email"));
    assert_eq!(tokens[0].data.field_type.as_deref(), Some("string"));
    assert_eq!(tokens[0].data.attributes.len(), 1);
    assert_eq!(tokens[0].data.attributes[0].name, "required");
}

#[test]
fn lex_section() {
    let tokens = lex("### Indexes", "test.m3l.md");
    assert_eq!(tokens.len(), 1);
    assert_eq!(tokens[0].token_type, TokenType::Section);
    assert_eq!(tokens[0].data.name.as_deref(), Some("Indexes"));
    assert!(!tokens[0].data.kind_section);
}

#[test]
fn lex_kind_section() {
    let tokens = lex("### Lookup", "test.m3l.md");
    assert_eq!(tokens[0].token_type, TokenType::Section);
    assert!(tokens[0].data.kind_section);
}

#[test]
fn lex_nested_item() {
    let tokens = lex("  - key: value", "test.m3l.md");
    assert_eq!(tokens[0].token_type, TokenType::NestedItem);
    assert_eq!(tokens[0].data.key.as_deref(), Some("key"));
    assert_eq!(tokens[0].data.value.as_deref(), Some("value"));
}

#[test]
fn lex_horizontal_rule() {
    let tokens = lex("---", "test.m3l.md");
    assert_eq!(tokens[0].token_type, TokenType::HorizontalRule);
}

#[test]
fn lex_blockquote() {
    let tokens = lex("> Model description", "test.m3l.md");
    assert_eq!(tokens[0].token_type, TokenType::Blockquote);
}

#[test]
fn lex_field_with_default() {
    let tokens = lex("- status: string = \"active\"", "test.m3l.md");
    assert_eq!(tokens[0].data.field_type.as_deref(), Some("string"));
    assert_eq!(tokens[0].data.default_value.as_deref(), Some("\"active\""));
}

#[test]
fn lex_field_nullable_array() {
    let tokens = lex("- tags: string?[]?", "test.m3l.md");
    let d = &tokens[0].data;
    assert_eq!(d.field_type.as_deref(), Some("string"));
    assert!(d.array);
    assert!(d.nullable);
    assert!(d.array_item_nullable);
}

#[test]
fn lex_code_block() {
    let input = "- computed_field: decimal @computed\n```sql\nSELECT 1\n```";
    let tokens = lex(input, "test.m3l.md");
    let field = &tokens[0];
    assert_eq!(field.token_type, TokenType::Field);
    assert!(field.data.code_block.is_some());
    let cb = field.data.code_block.as_ref().unwrap();
    assert_eq!(cb.language.as_deref(), Some("sql"));
    assert_eq!(cb.content, "SELECT 1");
}

#[test]
fn lex_model_with_label() {
    let tokens = lex("## User(Users)", "test.m3l.md");
    assert_eq!(tokens[0].data.name.as_deref(), Some("User"));
    assert_eq!(tokens[0].data.label.as_deref(), Some("Users"));
}

#[test]
fn lex_view_indicator() {
    let tokens = lex("## SalesSummary ::view @materialized", "test.m3l.md");
    assert_eq!(tokens[0].token_type, TokenType::View);
    assert_eq!(tokens[0].data.materialized, Some(true));
}

#[test]
fn lex_attribute_def() {
    let tokens = lex("## custom_flag ::attribute", "test.m3l.md");
    assert_eq!(tokens[0].token_type, TokenType::AttributeDef);
    assert_eq!(tokens[0].data.name.as_deref(), Some("custom_flag"));
}

#[test]
fn lex_import() {
    let tokens = lex("@import \"base.m3l.md\"", "test.m3l.md");
    assert_eq!(tokens[0].token_type, TokenType::Text);
    assert!(tokens[0].data.is_import);
    assert_eq!(tokens[0].data.import_path.as_deref(), Some("base.m3l.md"));
}

#[test]
fn parse_type_and_attrs_basic() {
    let mut data = TokenData::default();
    parse_type_and_attrs("string @required @unique", &mut data);
    assert_eq!(data.field_type.as_deref(), Some("string"));
    assert!(!data.nullable);
    assert_eq!(data.attributes.len(), 2);
    assert_eq!(data.attributes[0].name, "required");
    assert_eq!(data.attributes[1].name, "unique");
}

#[test]
fn parse_type_and_attrs_with_params() {
    let mut data = TokenData::default();
    parse_type_and_attrs("decimal(10,2) @min(0)", &mut data);
    assert_eq!(data.field_type.as_deref(), Some("decimal"));
    assert_eq!(data.type_params.len(), 2);
    assert_eq!(data.attributes.len(), 1);
    assert_eq!(data.attributes[0].name, "min");
}

#[test]
fn parse_type_and_attrs_generics() {
    let mut data = TokenData::default();
    parse_type_and_attrs("map<string,integer>", &mut data);
    assert_eq!(data.field_type.as_deref(), Some("map"));
    assert_eq!(data.type_generic_params, vec!["string", "integer"]);
}

#[test]
fn parse_type_and_attrs_cascade() {
    let mut data = TokenData::default();
    parse_type_and_attrs("identifier @reference(Order) !", &mut data);
    assert_eq!(data.attributes.len(), 1);
    assert_eq!(data.attributes[0].cascade.as_deref(), Some("!"));
}

#[test]
fn parse_type_and_attrs_backtick_default() {
    let mut data = TokenData::default();
    parse_type_and_attrs("decimal @computed(`price * qty`)", &mut data);
    assert_eq!(data.field_type.as_deref(), Some("decimal"));
    assert_eq!(data.attributes.len(), 1);
    assert_eq!(data.attributes[0].name, "computed");
}

#[test]
fn parse_attr_args_mixed() {
    let args = parse_attr_args_string("\"hello\", 42, true");
    assert_eq!(args.len(), 3);
    assert_eq!(args[0], AttrArgValue::String("hello".into()));
    assert_eq!(args[1], number("42"));
    assert_eq!(args[2], AttrArgValue::Bool(true));
}
