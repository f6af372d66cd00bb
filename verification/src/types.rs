//! The data model: tokens, the syntax tree, diagnostics, and for each type its
//! mathematical value (`deep_view`), over which every contract is stated.

use vstd::prelude::*;

verus! {

/// What a line of the source was recognised as.
#[derive(Debug, Clone, Copy, PartialEq, Eq, Structural)]
pub enum TokenType {
    Namespace,
    Model,
    Enum,
    Interface,
    View,
    AttributeDef,
    Section,
    Field,
    NestedItem,
    Blockquote,
    HorizontalRule,
    Blank,
    Text,
}

/// How a field gets its value.
#[derive(Debug, Clone, Copy, PartialEq, Eq, Structural)]
pub enum FieldKind {
    Stored,
    Computed,
    Lookup,
    Rollup,
}

/// Whether a default value is a literal or an expression to evaluate.
#[derive(Debug, Clone, Copy, PartialEq, Eq, Structural)]
pub enum DefaultValueType {
    Literal,
    Expression,
}

/// The family of a top-level element.
#[derive(Debug, Clone, Copy, PartialEq, Eq, Structural)]
pub enum ModelType {
    Model,
    Enum,
    Interface,
    View,
}

/// Whether a diagnostic is an error or a warning.
#[derive(Debug, Clone, Copy, PartialEq, Eq, Structural)]
pub enum DiagnosticSeverity {
    Error,
    Warning,
}

impl DeepView for TokenType {
    type V = TokenType;

    open spec fn deep_view(&self) -> TokenType {
        *self
    }
}

impl DeepView for FieldKind {
    type V = FieldKind;

    open spec fn deep_view(&self) -> FieldKind {
        *self
    }
}

impl DeepView for DefaultValueType {
    type V = DefaultValueType;

    open spec fn deep_view(&self) -> DefaultValueType {
        *self
    }
}

impl DeepView for ModelType {
    type V = ModelType;

    open spec fn deep_view(&self) -> ModelType {
        *self
    }
}

impl DeepView for DiagnosticSeverity {
    type V = DiagnosticSeverity;

    open spec fn deep_view(&self) -> DiagnosticSeverity {
        *self
    }
}

impl Default for FieldKind {
    fn default() -> (r: Self)
        ensures
            r == FieldKind::Stored,
    {
        FieldKind::Stored
    }
}

/// A number as it was written in the source: the text of a decimal literal.
/// Its value is its text; `crate::number` says which texts are numbers and
/// how two of them compare.
#[derive(Debug, PartialEq)]
pub struct NumberLit {
    pub text: String,
}

impl DeepView for NumberLit {
    type V = Seq<char>;

    open spec fn deep_view(&self) -> Seq<char> {
        self.text@
    }
}

impl Clone for NumberLit {
    fn clone(&self) -> (r: Self)
        ensures
            r.deep_view() == self.deep_view(),
    {
        NumberLit { text: self.text.clone() }
    }
}

/// A copy of each pair of `v`, in order.
pub fn clone_pairs(v: &Vec<(String, String)>) -> (r: Vec<(String, String)>)
    ensures
        r.deep_view() == v.deep_view(),
{
    let mut out: Vec<(String, String)> = Vec::new();
    let mut i: usize = 0;
    while i < v.len()
        invariant
            i <= v.len(),
            out.len() == i,
            forall|j: int| 0 <= j < i ==> out@[j].deep_view() == v@[j].deep_view(),
        decreases v.len() - i,
    {
        out.push((v[i].0.clone(), v[i].1.clone()));
        i += 1;
    }
    proof {
        assert(out.deep_view() =~= v.deep_view());
    }
    out
}

/// An argument of an attribute: a string, a number or a boolean.
#[derive(Debug, PartialEq)]
pub enum AttrArgValue {
    String(String),
    Number(NumberLit),
    Bool(bool),
}

/// The mathematical value of an [`AttrArgValue`].
pub enum AttrArgView {
    String(Seq<char>),
    Number(Seq<char>),
    Bool(bool),
}

impl DeepView for AttrArgValue {
    type V = AttrArgView;

    open spec fn deep_view(&self) -> AttrArgView {
        match self {
            AttrArgValue::String(s) => AttrArgView::String(s@),
            AttrArgValue::Number(n) => AttrArgView::Number(n.text@),
            AttrArgValue::Bool(b) => AttrArgView::Bool(*b),
        }
    }
}

impl Clone for AttrArgValue {
    fn clone(&self) -> (r: Self)
        ensures
            r.deep_view() == self.deep_view(),
    {
        match self {
            AttrArgValue::String(s) => AttrArgValue::String(s.clone()),
            AttrArgValue::Number(n) => AttrArgValue::Number(n.clone()),
            AttrArgValue::Bool(b) => AttrArgValue::Bool(*b),
        }
    }
}

/// A parameter of a field type: a string or a number.
#[derive(Debug, PartialEq)]
pub enum ParamValue {
    String(String),
    Number(NumberLit),
}

/// The mathematical value of a [`ParamValue`].
pub enum ParamView {
    String(Seq<char>),
    Number(Seq<char>),
}

impl DeepView for ParamValue {
    type V = ParamView;

    open spec fn deep_view(&self) -> ParamView {
        match self {
            ParamValue::String(s) => ParamView::String(s@),
            ParamValue::Number(n) => ParamView::Number(n.text@),
        }
    }
}

impl Clone for ParamValue {
    fn clone(&self) -> (r: Self)
        ensures
            r.deep_view() == self.deep_view(),
    {
        match self {
            ParamValue::String(s) => ParamValue::String(s.clone()),
            ParamValue::Number(n) => ParamValue::Number(n.clone()),
        }
    }
}

/// A JSON value, as the section entries of a model hold them. An object keeps
/// its members in the order in which they were inserted.
#[derive(Debug, PartialEq)]
pub enum JsonValue {
    Null,
    Bool(bool),
    Int(i64),
    UInt(u64),
    Number(NumberLit),
    String(String),
    Array(Vec<JsonValue>),
    Object(Vec<JsonMember>),
}

/// One member of a JSON object.
#[derive(Debug, PartialEq)]
pub struct JsonMember {
    pub key: String,
    pub value: JsonValue,
}

/// The mathematical value of a [`JsonValue`].
pub enum JsonView {
    Null,
    Bool(bool),
    Int(int),
    Number(Seq<char>),
    String(Seq<char>),
    Array(Seq<JsonView>),
    Object(Seq<(Seq<char>, JsonView)>),
}

/// The value of a JSON tree, node by node.
pub open spec fn json_view(j: &JsonValue) -> JsonView
    decreases j,
{
    match j {
        JsonValue::Null => JsonView::Null,
        JsonValue::Bool(b) => JsonView::Bool(*b),
        JsonValue::Int(i) => JsonView::Int(*i as int),
        JsonValue::UInt(u) => JsonView::Int(*u as int),
        JsonValue::Number(n) => JsonView::Number(n.text@),
        JsonValue::String(s) => JsonView::String(s@),
        JsonValue::Array(v) => JsonView::Array(
            Seq::new(
                v@.len(),
                |i: int|
                    if 0 <= i < v@.len() {
                        json_view(&v@[i])
                    } else {
                        arbitrary()
                    },
            ),
        ),
        JsonValue::Object(m) => JsonView::Object(
            Seq::new(
                m@.len(),
                |i: int|
                    if 0 <= i < m@.len() {
                        (m@[i].key@, json_view(&m@[i].value))
                    } else {
                        arbitrary()
                    },
            ),
        ),
    }
}

impl DeepView for JsonValue {
    type V = JsonView;

    open spec fn deep_view(&self) -> JsonView {
        json_view(self)
    }
}

impl DeepView for JsonMember {
    type V = (Seq<char>, JsonView);

    open spec fn deep_view(&self) -> (Seq<char>, JsonView) {
        (self.key@, json_view(&self.value))
    }
}

/// The value of an array is the array of its items' values.
pub proof fn lemma_json_array(v: Vec<JsonValue>)
    ensures
        json_view(&JsonValue::Array(v)) == JsonView::Array(v.deep_view()),
{
    assert(json_view(&JsonValue::Array(v))->Array_0 =~= v.deep_view());
}

/// The value of an object is the list of its members' values.
pub proof fn lemma_json_object(m: Vec<JsonMember>)
    ensures
        json_view(&JsonValue::Object(m)) == JsonView::Object(m.deep_view()),
{
    assert(json_view(&JsonValue::Object(m))->Object_0 =~= m.deep_view());
}

/// A copy of each value of `v`, in order.
pub fn clone_vec_json_value(v: &Vec<JsonValue>) -> (r: Vec<JsonValue>)
    ensures
        r.deep_view() == v.deep_view(),
    decreases v,
{
    let mut out: Vec<JsonValue> = Vec::new();
    let mut i: usize = 0;
    while i < v.len()
        invariant
            i <= v.len(),
            out.len() == i,
            forall|j: int| 0 <= j < i ==> json_view(&out@[j]) == json_view(&v@[j]),
        decreases v.len() - i,
    {
        out.push(clone_json(&v[i]));
        i += 1;
    }
    proof {
        assert(out.deep_view() =~= v.deep_view());
    }
    out
}

/// A copy of each member of `v`, in order.
pub fn clone_vec_json_member(v: &Vec<JsonMember>) -> (r: Vec<JsonMember>)
    ensures
        r.deep_view() == v.deep_view(),
    decreases v,
{
    let mut out: Vec<JsonMember> = Vec::new();
    let mut i: usize = 0;
    while i < v.len()
        invariant
            i <= v.len(),
            out.len() == i,
            forall|j: int| 0 <= j < i ==> out@[j].deep_view() == v@[j].deep_view(),
        decreases v.len() - i,
    {
        let value = clone_json(&v[i].value);
        out.push(JsonMember { key: v[i].key.clone(), value });
        i += 1;
    }
    proof {
        assert(out.deep_view() =~= v.deep_view());
    }
    out
}

/// A copy of a JSON tree.
pub fn clone_json(j: &JsonValue) -> (r: JsonValue)
    ensures
        json_view(&r) == json_view(j),
    decreases j,
{
    match j {
        JsonValue::Null => JsonValue::Null,
        JsonValue::Bool(b) => JsonValue::Bool(*b),
        JsonValue::Int(i) => JsonValue::Int(*i),
        JsonValue::UInt(u) => JsonValue::UInt(*u),
        JsonValue::Number(n) => JsonValue::Number(n.clone()),
        JsonValue::String(s) => JsonValue::String(s.clone()),
        JsonValue::Array(v) => {
            let c = clone_vec_json_value(v);
            proof {
                assert(json_view(&JsonValue::Array(c))->Array_0 =~= c.deep_view());
                assert(json_view(j)->Array_0 =~= v.deep_view());
            }
            JsonValue::Array(c)
        },
        JsonValue::Object(m) => {
            let c = clone_vec_json_member(m);
            proof {
                assert(json_view(&JsonValue::Object(c))->Object_0 =~= c.deep_view());
                assert(json_view(j)->Object_0 =~= m.deep_view());
            }
            JsonValue::Object(c)
        },
    }
}

impl Clone for JsonValue {
    fn clone(&self) -> (r: Self)
        ensures
            r.deep_view() == self.deep_view(),
    {
        clone_json(self)
    }
}

impl Clone for JsonMember {
    fn clone(&self) -> (r: Self)
        ensures
            r.deep_view() == self.deep_view(),
    {
        JsonMember { key: self.key.clone(), value: clone_json(&self.value) }
    }
}


/// A place in a source file; lines and columns count from 1.
#[derive(Debug, PartialEq)]
pub struct SourceLocation {
    pub file: String,
    pub line: usize,
    pub col: usize,
}

/// The mathematical value of a [`SourceLocation`].
pub struct SourceLocationView {
    pub file: Seq<char>,
    pub line: usize,
    pub col: usize,
}

impl DeepView for SourceLocation {
    type V = SourceLocationView;

    open spec fn deep_view(&self) -> SourceLocationView {
        SourceLocationView {
            file: self.file.deep_view(),
            line: self.line.deep_view(),
            col: self.col.deep_view(),
        }
    }
}

impl Clone for SourceLocation {
    fn clone(&self) -> (r: Self)
        ensures
            r.deep_view() == self.deep_view(),
    {
        SourceLocation {
            file: self.file.clone(),
            line: self.line,
            col: self.col,
        }
    }
}

/// A fenced code block, with the language named on its opening fence.
#[derive(Debug, PartialEq)]
pub struct CodeBlock {
    pub language: Option<String>,
    pub content: String,
}

/// The mathematical value of a [`CodeBlock`].
pub struct CodeBlockView {
    pub language: Option<Seq<char>>,
    pub content: Seq<char>,
}

impl DeepView for CodeBlock {
    type V = CodeBlockView;

    open spec fn deep_view(&self) -> CodeBlockView {
        CodeBlockView {
            language: self.language.deep_view(),
            content: self.content.deep_view(),
        }
    }
}

impl Clone for CodeBlock {
    fn clone(&self) -> (r: Self)
        ensures
            r.deep_view() == self.deep_view(),
    {
        CodeBlock {
            language: clone_opt_string(&self.language),
            content: self.content.clone(),
        }
    }
}

/// An attribute as the lexer read it: `@name(args)` and the cascade mark after it.
#[derive(Debug, PartialEq)]
pub struct RawAttribute {
    pub name: String,
    pub args: Vec<AttrArgValue>,
    pub cascade: Option<String>,
}

/// The mathematical value of a [`RawAttribute`].
pub struct RawAttributeView {
    pub name: Seq<char>,
    pub args: Seq<AttrArgView>,
    pub cascade: Option<Seq<char>>,
}

impl DeepView for RawAttribute {
    type V = RawAttributeView;

    open spec fn deep_view(&self) -> RawAttributeView {
        RawAttributeView {
            name: self.name.deep_view(),
            args: self.args.deep_view(),
            cascade: self.cascade.deep_view(),
        }
    }
}

impl Clone for RawAttribute {
    fn clone(&self) -> (r: Self)
        ensures
            r.deep_view() == self.deep_view(),
    {
        RawAttribute {
            name: self.name.clone(),
            args: clone_vec_attr_arg_value(&self.args),
            cascade: clone_opt_string(&self.cascade),
        }
    }
}

/// What the lexer decoded from one line; which parts are set depends on the token's type.
#[derive(Debug, PartialEq)]
pub struct TokenData {
    pub name: Option<String>,
    pub label: Option<String>,
    pub description: Option<String>,
    pub comment: Option<String>,
    pub inherits: Vec<String>,
    pub attributes: Vec<RawAttribute>,
    pub materialized: Option<bool>,
    pub field_type: Option<String>,
    pub type_params: Vec<ParamValue>,
    pub type_generic_params: Vec<String>,
    pub nullable: bool,
    pub array: bool,
    pub array_item_nullable: bool,
    pub default_value: Option<String>,
    pub is_directive: bool,
    pub is_import: bool,
    pub import_path: Option<String>,
    pub framework_attrs: Vec<String>,
    pub blockquote_desc: Option<String>,
    pub enum_value_description: Option<String>,
    pub kind_section: bool,
    pub code_block: Option<CodeBlock>,
    pub key: Option<String>,
    pub value: Option<String>,
}

/// The mathematical value of a [`TokenData`].
pub struct TokenDataView {
    pub name: Option<Seq<char>>,
    pub label: Option<Seq<char>>,
    pub description: Option<Seq<char>>,
    pub comment: Option<Seq<char>>,
    pub inherits: Seq<Seq<char>>,
    pub attributes: Seq<RawAttributeView>,
    pub materialized: Option<bool>,
    pub field_type: Option<Seq<char>>,
    pub type_params: Seq<ParamView>,
    pub type_generic_params: Seq<Seq<char>>,
    pub nullable: bool,
    pub array: bool,
    pub array_item_nullable: bool,
    pub default_value: Option<Seq<char>>,
    pub is_directive: bool,
    pub is_import: bool,
    pub import_path: Option<Seq<char>>,
    pub framework_attrs: Seq<Seq<char>>,
    pub blockquote_desc: Option<Seq<char>>,
    pub enum_value_description: Option<Seq<char>>,
    pub kind_section: bool,
    pub code_block: Option<CodeBlockView>,
    pub key: Option<Seq<char>>,
    pub value: Option<Seq<char>>,
}

impl DeepView for TokenData {
    type V = TokenDataView;

    open spec fn deep_view(&self) -> TokenDataView {
        TokenDataView {
            name: self.name.deep_view(),
            label: self.label.deep_view(),
            description: self.description.deep_view(),
            comment: self.comment.deep_view(),
            inherits: self.inherits.deep_view(),
            attributes: self.attributes.deep_view(),
            materialized: self.materialized.deep_view(),
            field_type: self.field_type.deep_view(),
            type_params: self.type_params.deep_view(),
            type_generic_params: self.type_generic_params.deep_view(),
            nullable: self.nullable.deep_view(),
            array: self.array.deep_view(),
            array_item_nullable: self.array_item_nullable.deep_view(),
            default_value: self.default_value.deep_view(),
            is_directive: self.is_directive.deep_view(),
            is_import: self.is_import.deep_view(),
            import_path: self.import_path.deep_view(),
            framework_attrs: self.framework_attrs.deep_view(),
            blockquote_desc: self.blockquote_desc.deep_view(),
            enum_value_description: self.enum_value_description.deep_view(),
            kind_section: self.kind_section.deep_view(),
            code_block: self.code_block.deep_view(),
            key: self.key.deep_view(),
            value: self.value.deep_view(),
        }
    }
}

impl Clone for TokenData {
    fn clone(&self) -> (r: Self)
        ensures
            r.deep_view() == self.deep_view(),
    {
        TokenData {
            name: clone_opt_string(&self.name),
            label: clone_opt_string(&self.label),
            description: clone_opt_string(&self.description),
            comment: clone_opt_string(&self.comment),
            inherits: clone_vec_string(&self.inherits),
            attributes: clone_vec_raw_attribute(&self.attributes),
            materialized: clone_opt_bool(&self.materialized),
            field_type: clone_opt_string(&self.field_type),
            type_params: clone_vec_param_value(&self.type_params),
            type_generic_params: clone_vec_string(&self.type_generic_params),
            nullable: self.nullable,
            array: self.array,
            array_item_nullable: self.array_item_nullable,
            default_value: clone_opt_string(&self.default_value),
            is_directive: self.is_directive,
            is_import: self.is_import,
            import_path: clone_opt_string(&self.import_path),
            framework_attrs: clone_vec_string(&self.framework_attrs),
            blockquote_desc: clone_opt_string(&self.blockquote_desc),
            enum_value_description: clone_opt_string(&self.enum_value_description),
            kind_section: self.kind_section,
            code_block: clone_opt_code_block(&self.code_block),
            key: clone_opt_string(&self.key),
            value: clone_opt_string(&self.value),
        }
    }
}

impl Default for TokenData {
    fn default() -> (r: Self)
        ensures
            r.deep_view() == TokenData::empty_view(),
    {
        let r = TokenData {
            name: None,
            label: None,
            description: None,
            comment: None,
            inherits: Vec::new(),
            attributes: Vec::new(),
            materialized: None,
            field_type: None,
            type_params: Vec::new(),
            type_generic_params: Vec::new(),
            nullable: false,
            array: false,
            array_item_nullable: false,
            default_value: None,
            is_directive: false,
            is_import: false,
            import_path: None,
            framework_attrs: Vec::new(),
            blockquote_desc: None,
            enum_value_description: None,
            kind_section: false,
            code_block: None,
            key: None,
            value: None,
        };
        proof {
            assert(r.inherits.deep_view() =~= Seq::empty());
            assert(r.attributes.deep_view() =~= Seq::empty());
            assert(r.type_params.deep_view() =~= Seq::empty());
            assert(r.type_generic_params.deep_view() =~= Seq::empty());
            assert(r.framework_attrs.deep_view() =~= Seq::empty());
        }
        r
    }
}

impl TokenData {
    /// The value that `default` gives: nothing set, every list empty.
    pub open spec fn empty_view() -> TokenDataView {
        TokenDataView {
            name: None,
            label: None,
            description: None,
            comment: None,
            inherits: Seq::empty(),
            attributes: Seq::empty(),
            materialized: None,
            field_type: None,
            type_params: Seq::empty(),
            type_generic_params: Seq::empty(),
            nullable: false,
            array: false,
            array_item_nullable: false,
            default_value: None,
            is_directive: false,
            is_import: false,
            import_path: None,
            framework_attrs: Seq::empty(),
            blockquote_desc: None,
            enum_value_description: None,
            kind_section: false,
            code_block: None,
            key: None,
            value: None,
        }
    }
}

/// One line of the source, classified.
#[derive(Debug, PartialEq)]
pub struct Token {
    pub token_type: TokenType,
    pub raw: String,
    pub line: usize,
    pub indent: usize,
    pub data: TokenData,
}

/// The mathematical value of a [`Token`].
pub struct TokenView {
    pub token_type: TokenType,
    pub raw: Seq<char>,
    pub line: usize,
    pub indent: usize,
    pub data: TokenDataView,
}

impl DeepView for Token {
    type V = TokenView;

    open spec fn deep_view(&self) -> TokenView {
        TokenView {
            token_type: self.token_type.deep_view(),
            raw: self.raw.deep_view(),
            line: self.line.deep_view(),
            indent: self.indent.deep_view(),
            data: self.data.deep_view(),
        }
    }
}

impl Clone for Token {
    fn clone(&self) -> (r: Self)
        ensures
            r.deep_view() == self.deep_view(),
    {
        Token {
            token_type: self.token_type,
            raw: self.raw.clone(),
            line: self.line,
            indent: self.indent,
            data: self.data.clone(),
        }
    }
}

/// An attribute in the syntax tree; `is_standard` and `is_registered` are set only when true.
#[derive(Debug, PartialEq)]
pub struct FieldAttribute {
    pub name: String,
    pub args: Option<Vec<AttrArgValue>>,
    pub cascade: Option<String>,
    pub is_standard: Option<bool>,
    pub is_registered: Option<bool>,
}

/// The mathematical value of a [`FieldAttribute`].
pub struct FieldAttributeView {
    pub name: Seq<char>,
    pub args: Option<Seq<AttrArgView>>,
    pub cascade: Option<Seq<char>>,
    pub is_standard: Option<bool>,
    pub is_registered: Option<bool>,
}

impl DeepView for FieldAttribute {
    type V = FieldAttributeView;

    open spec fn deep_view(&self) -> FieldAttributeView {
        FieldAttributeView {
            name: self.name.deep_view(),
            args: self.args.deep_view(),
            cascade: self.cascade.deep_view(),
            is_standard: self.is_standard.deep_view(),
            is_registered: self.is_registered.deep_view(),
        }
    }
}

impl Clone for FieldAttribute {
    fn clone(&self) -> (r: Self)
        ensures
            r.deep_view() == self.deep_view(),
    {
        FieldAttribute {
            name: self.name.clone(),
            args: clone_opt_vec_attr_arg_value(&self.args),
            cascade: clone_opt_string(&self.cascade),
            is_standard: clone_opt_bool(&self.is_standard),
            is_registered: clone_opt_bool(&self.is_registered),
        }
    }
}

/// The name and arguments read out of a framework attribute.
#[derive(Debug, PartialEq)]
pub struct CustomAttributeParsed {
    pub name: String,
    pub arguments: Vec<AttrArgValue>,
}

/// The mathematical value of a [`CustomAttributeParsed`].
pub struct CustomAttributeParsedView {
    pub name: Seq<char>,
    pub arguments: Seq<AttrArgView>,
}

impl DeepView for CustomAttributeParsed {
    type V = CustomAttributeParsedView;

    open spec fn deep_view(&self) -> CustomAttributeParsedView {
        CustomAttributeParsedView {
            name: self.name.deep_view(),
            arguments: self.arguments.deep_view(),
        }
    }
}

impl Clone for CustomAttributeParsed {
    fn clone(&self) -> (r: Self)
        ensures
            r.deep_view() == self.deep_view(),
    {
        CustomAttributeParsed {
            name: self.name.clone(),
            arguments: clone_vec_attr_arg_value(&self.arguments),
        }
    }
}

/// A framework attribute passed through: its text with and without brackets, and what could be read out of it.
#[derive(Debug, PartialEq)]
pub struct CustomAttribute {
    pub content: String,
    pub raw: String,
    pub parsed: Option<CustomAttributeParsed>,
}

/// The mathematical value of a [`CustomAttribute`].
pub struct CustomAttributeView {
    pub content: Seq<char>,
    pub raw: Seq<char>,
    pub parsed: Option<CustomAttributeParsedView>,
}

impl DeepView for CustomAttribute {
    type V = CustomAttributeView;

    open spec fn deep_view(&self) -> CustomAttributeView {
        CustomAttributeView {
            content: self.content.deep_view(),
            raw: self.raw.deep_view(),
            parsed: self.parsed.deep_view(),
        }
    }
}

impl Clone for CustomAttribute {
    fn clone(&self) -> (r: Self)
        ensures
            r.deep_view() == self.deep_view(),
    {
        CustomAttribute {
            content: self.content.clone(),
            raw: self.raw.clone(),
            parsed: clone_opt_custom_attribute_parsed(&self.parsed),
        }
    }
}

/// One value of an enum.
#[derive(Debug, PartialEq)]
pub struct EnumValue {
    pub name: String,
    pub description: Option<String>,
    pub value_type: Option<String>,
    pub value: Option<JsonValue>,
}

/// The mathematical value of a [`EnumValue`].
pub struct EnumValueView {
    pub name: Seq<char>,
    pub description: Option<Seq<char>>,
    pub value_type: Option<Seq<char>>,
    pub value: Option<JsonView>,
}

impl DeepView for EnumValue {
    type V = EnumValueView;

    open spec fn deep_view(&self) -> EnumValueView {
        EnumValueView {
            name: self.name.deep_view(),
            description: self.description.deep_view(),
            value_type: self.value_type.deep_view(),
            value: self.value.deep_view(),
        }
    }
}

impl Clone for EnumValue {
    fn clone(&self) -> (r: Self)
        ensures
            r.deep_view() == self.deep_view(),
    {
        EnumValue {
            name: self.name.clone(),
            description: clone_opt_string(&self.description),
            value_type: clone_opt_string(&self.value_type),
            value: clone_opt_json_value(&self.value),
        }
    }
}

/// The path of a lookup field.
#[derive(Debug, PartialEq)]
pub struct LookupDef {
    pub path: String,
}

/// The mathematical value of a [`LookupDef`].
pub struct LookupDefView {
    pub path: Seq<char>,
}

impl DeepView for LookupDef {
    type V = LookupDefView;

    open spec fn deep_view(&self) -> LookupDefView {
        LookupDefView {
            path: self.path.deep_view(),
        }
    }
}

impl Clone for LookupDef {
    fn clone(&self) -> (r: Self)
        ensures
            r.deep_view() == self.deep_view(),
    {
        LookupDef {
            path: self.path.clone(),
        }
    }
}

/// What a rollup field aggregates.
#[derive(Debug, PartialEq)]
pub struct RollupDef {
    pub target: String,
    pub fk: String,
    pub aggregate: String,
    pub field: Option<String>,
    pub where_clause: Option<String>,
}

/// The mathematical value of a [`RollupDef`].
pub struct RollupDefView {
    pub target: Seq<char>,
    pub fk: Seq<char>,
    pub aggregate: Seq<char>,
    pub field: Option<Seq<char>>,
    pub where_clause: Option<Seq<char>>,
}

impl DeepView for RollupDef {
    type V = RollupDefView;

    open spec fn deep_view(&self) -> RollupDefView {
        RollupDefView {
            target: self.target.deep_view(),
            fk: self.fk.deep_view(),
            aggregate: self.aggregate.deep_view(),
            field: self.field.deep_view(),
            where_clause: self.where_clause.deep_view(),
        }
    }
}

impl Clone for RollupDef {
    fn clone(&self) -> (r: Self)
        ensures
            r.deep_view() == self.deep_view(),
    {
        RollupDef {
            target: self.target.clone(),
            fk: self.fk.clone(),
            aggregate: self.aggregate.clone(),
            field: clone_opt_string(&self.field),
            where_clause: clone_opt_string(&self.where_clause),
        }
    }
}

/// The expression of a computed field.
#[derive(Debug, PartialEq)]
pub struct ComputedDef {
    pub expression: String,
    pub platform: Option<String>,
}

/// The mathematical value of a [`ComputedDef`].
pub struct ComputedDefView {
    pub expression: Seq<char>,
    pub platform: Option<Seq<char>>,
}

impl DeepView for ComputedDef {
    type V = ComputedDefView;

    open spec fn deep_view(&self) -> ComputedDefView {
        ComputedDefView {
            expression: self.expression.deep_view(),
            platform: self.platform.deep_view(),
        }
    }
}

impl Clone for ComputedDef {
    fn clone(&self) -> (r: Self)
        ensures
            r.deep_view() == self.deep_view(),
    {
        ComputedDef {
            expression: self.expression.clone(),
            platform: clone_opt_string(&self.platform),
        }
    }
}


/// A field of a model, a view or an interface; `fields` holds the sub-fields
/// of an object-typed field.
#[derive(Debug, PartialEq)]
pub struct FieldNode {
    pub name: String,
    pub label: Option<String>,
    pub field_type: Option<String>,
    pub params: Option<Vec<ParamValue>>,
    pub generic_params: Option<Vec<String>>,
    pub nullable: bool,
    pub array: bool,
    pub array_item_nullable: bool,
    pub kind: FieldKind,
    pub default_value: Option<String>,
    pub default_value_type: Option<DefaultValueType>,
    pub description: Option<String>,
    pub attributes: Vec<FieldAttribute>,
    pub framework_attrs: Option<Vec<CustomAttribute>>,
    pub lookup: Option<LookupDef>,
    pub rollup: Option<RollupDef>,
    pub computed: Option<ComputedDef>,
    pub enum_values: Option<Vec<EnumValue>>,
    pub fields: Option<Vec<FieldNode>>,
    pub loc: SourceLocation,
}

/// The mathematical value of a [`FieldNode`].
pub struct FieldNodeView {
    pub name: Seq<char>,
    pub label: Option<Seq<char>>,
    pub field_type: Option<Seq<char>>,
    pub params: Option<Seq<ParamView>>,
    pub generic_params: Option<Seq<Seq<char>>>,
    pub nullable: bool,
    pub array: bool,
    pub array_item_nullable: bool,
    pub kind: FieldKind,
    pub default_value: Option<Seq<char>>,
    pub default_value_type: Option<DefaultValueType>,
    pub description: Option<Seq<char>>,
    pub attributes: Seq<FieldAttributeView>,
    pub framework_attrs: Option<Seq<CustomAttributeView>>,
    pub lookup: Option<LookupDefView>,
    pub rollup: Option<RollupDefView>,
    pub computed: Option<ComputedDefView>,
    pub enum_values: Option<Seq<EnumValueView>>,
    pub fields: Option<Seq<FieldNodeView>>,
    pub loc: SourceLocationView,
}

/// The value of a field, its sub-fields included.
pub open spec fn field_view(f: &FieldNode) -> FieldNodeView
    decreases f,
{
    FieldNodeView {
        name: f.name@,
        label: f.label.deep_view(),
        field_type: f.field_type.deep_view(),
        params: f.params.deep_view(),
        generic_params: f.generic_params.deep_view(),
        nullable: f.nullable,
        array: f.array,
        array_item_nullable: f.array_item_nullable,
        kind: f.kind,
        default_value: f.default_value.deep_view(),
        default_value_type: f.default_value_type,
        description: f.description.deep_view(),
        attributes: f.attributes.deep_view(),
        framework_attrs: f.framework_attrs.deep_view(),
        lookup: f.lookup.deep_view(),
        rollup: f.rollup.deep_view(),
        computed: f.computed.deep_view(),
        enum_values: f.enum_values.deep_view(),
        fields: match f.fields {
            Some(k) => Some(
                Seq::new(
                    k@.len(),
                    |i: int|
                        if 0 <= i < k@.len() {
                            field_view(&k@[i])
                        } else {
                            arbitrary()
                        },
                ),
            ),
            None => None,
        },
        loc: f.loc.deep_view(),
    }
}

impl DeepView for FieldNode {
    type V = FieldNodeView;

    open spec fn deep_view(&self) -> FieldNodeView {
        field_view(self)
    }
}

/// The sub-fields in a field's value are the values of its sub-fields.
pub proof fn lemma_field_view_fields(f: &FieldNode)
    requires
        f.fields is Some,
    ensures
        field_view(f).fields == Some(f.fields->0.deep_view()),
{
    assert(field_view(f).fields->0 =~= f.fields->0.deep_view());
}

/// A copy of each field of `v`, in order.
pub fn clone_vec_field_node(v: &Vec<FieldNode>) -> (r: Vec<FieldNode>)
    ensures
        r.deep_view() == v.deep_view(),
    decreases v,
{
    let mut out: Vec<FieldNode> = Vec::new();
    let mut i: usize = 0;
    while i < v.len()
        invariant
            i <= v.len(),
            out.len() == i,
            forall|j: int| 0 <= j < i ==> field_view(&out@[j]) == field_view(&v@[j]),
        decreases v.len() - i,
    {
        out.push(clone_field(&v[i]));
        i += 1;
    }
    proof {
        assert(out.deep_view() =~= v.deep_view());
    }
    out
}

/// A copy of a field, its sub-fields included.
pub fn clone_field(f: &FieldNode) -> (r: FieldNode)
    ensures
        field_view(&r) == field_view(f),
    decreases f,
{
    let fields = match &f.fields {
        Some(k) => Some(clone_vec_field_node(k)),
        None => None,
    };
    let r = FieldNode {
        name: f.name.clone(),
        label: clone_opt_string(&f.label),
        field_type: clone_opt_string(&f.field_type),
        params: clone_opt_vec_param_value(&f.params),
        generic_params: clone_opt_vec_string(&f.generic_params),
        nullable: f.nullable,
        array: f.array,
        array_item_nullable: f.array_item_nullable,
        kind: f.kind,
        default_value: clone_opt_string(&f.default_value),
        default_value_type: f.default_value_type,
        description: clone_opt_string(&f.description),
        attributes: clone_vec_field_attribute(&f.attributes),
        framework_attrs: clone_opt_vec_custom_attribute(&f.framework_attrs),
        lookup: clone_opt_lookup_def(&f.lookup),
        rollup: clone_opt_rollup_def(&f.rollup),
        computed: clone_opt_computed_def(&f.computed),
        enum_values: clone_opt_vec_enum_value(&f.enum_values),
        fields,
        loc: f.loc.clone(),
    };
    proof {
        if f.fields is Some {
            lemma_field_view_fields(f);
            lemma_field_view_fields(&r);
        }
    }
    r
}

impl Clone for FieldNode {
    fn clone(&self) -> (r: Self)
        ensures
            r.deep_view() == self.deep_view(),
    {
        clone_field(self)
    }
}


/// A join of a view's source.
#[derive(Debug, PartialEq)]
pub struct JoinDef {
    pub model: String,
    pub on: String,
}

/// The mathematical value of a [`JoinDef`].
pub struct JoinDefView {
    pub model: Seq<char>,
    pub on: Seq<char>,
}

impl DeepView for JoinDef {
    type V = JoinDefView;

    open spec fn deep_view(&self) -> JoinDefView {
        JoinDefView {
            model: self.model.deep_view(),
            on: self.on.deep_view(),
        }
    }
}

impl Clone for JoinDef {
    fn clone(&self) -> (r: Self)
        ensures
            r.deep_view() == self.deep_view(),
    {
        JoinDef {
            model: self.model.clone(),
            on: self.on.clone(),
        }
    }
}

/// Where a view takes its rows from.
#[derive(Debug, PartialEq)]
pub struct ViewSourceDef {
    pub from: Option<String>,
    pub joins: Option<Vec<JoinDef>>,
    pub where_clause: Option<String>,
    pub order_by: Option<String>,
    pub group_by: Option<Vec<String>>,
    pub raw_sql: Option<String>,
    pub language_hint: Option<String>,
}

/// The mathematical value of a [`ViewSourceDef`].
pub struct ViewSourceDefView {
    pub from: Option<Seq<char>>,
    pub joins: Option<Seq<JoinDefView>>,
    pub where_clause: Option<Seq<char>>,
    pub order_by: Option<Seq<char>>,
    pub group_by: Option<Seq<Seq<char>>>,
    pub raw_sql: Option<Seq<char>>,
    pub language_hint: Option<Seq<char>>,
}

impl DeepView for ViewSourceDef {
    type V = ViewSourceDefView;

    open spec fn deep_view(&self) -> ViewSourceDefView {
        ViewSourceDefView {
            from: self.from.deep_view(),
            joins: self.joins.deep_view(),
            where_clause: self.where_clause.deep_view(),
            order_by: self.order_by.deep_view(),
            group_by: self.group_by.deep_view(),
            raw_sql: self.raw_sql.deep_view(),
            language_hint: self.language_hint.deep_view(),
        }
    }
}

impl Clone for ViewSourceDef {
    fn clone(&self) -> (r: Self)
        ensures
            r.deep_view() == self.deep_view(),
    {
        ViewSourceDef {
            from: clone_opt_string(&self.from),
            joins: clone_opt_vec_join_def(&self.joins),
            where_clause: clone_opt_string(&self.where_clause),
            order_by: clone_opt_string(&self.order_by),
            group_by: clone_opt_vec_string(&self.group_by),
            raw_sql: clone_opt_string(&self.raw_sql),
            language_hint: clone_opt_string(&self.language_hint),
        }
    }
}

/// How a materialized view is refreshed.
#[derive(Debug, PartialEq)]
pub struct RefreshDef {
    pub strategy: String,
    pub interval: Option<String>,
}

/// The mathematical value of a [`RefreshDef`].
pub struct RefreshDefView {
    pub strategy: Seq<char>,
    pub interval: Option<Seq<char>>,
}

impl DeepView for RefreshDef {
    type V = RefreshDefView;

    open spec fn deep_view(&self) -> RefreshDefView {
        RefreshDefView {
            strategy: self.strategy.deep_view(),
            interval: self.interval.deep_view(),
        }
    }
}

impl Clone for RefreshDef {
    fn clone(&self) -> (r: Self)
        ensures
            r.deep_view() == self.deep_view(),
    {
        RefreshDef {
            strategy: self.strategy.clone(),
            interval: clone_opt_string(&self.interval),
        }
    }
}

/// The section entries of a model: four fixed buckets, and the custom ones by name.
/// The parser gives `metadata` and `custom` each key once.
#[derive(Debug, PartialEq)]
pub struct Sections {
    pub indexes: Vec<JsonValue>,
    pub relations: Vec<JsonValue>,
    pub behaviors: Vec<JsonValue>,
    pub metadata: Vec<JsonMember>,
    pub custom: Vec<JsonMember>,
}

/// The mathematical value of a [`Sections`].
pub struct SectionsView {
    pub indexes: Seq<JsonView>,
    pub relations: Seq<JsonView>,
    pub behaviors: Seq<JsonView>,
    pub metadata: Seq<(Seq<char>, JsonView)>,
    pub custom: Seq<(Seq<char>, JsonView)>,
}

impl DeepView for Sections {
    type V = SectionsView;

    open spec fn deep_view(&self) -> SectionsView {
        SectionsView {
            indexes: self.indexes.deep_view(),
            relations: self.relations.deep_view(),
            behaviors: self.behaviors.deep_view(),
            metadata: self.metadata.deep_view(),
            custom: self.custom.deep_view(),
        }
    }
}

impl Clone for Sections {
    fn clone(&self) -> (r: Self)
        ensures
            r.deep_view() == self.deep_view(),
    {
        Sections {
            indexes: clone_vec_json_value(&self.indexes),
            relations: clone_vec_json_value(&self.relations),
            behaviors: clone_vec_json_value(&self.behaviors),
            metadata: clone_vec_json_member(&self.metadata),
            custom: clone_vec_json_member(&self.custom),
        }
    }
}

impl Default for Sections {
    fn default() -> (r: Self)
        ensures
            r.deep_view() == Sections::empty_view(),
    {
        let r = Sections {
            indexes: Vec::new(),
            relations: Vec::new(),
            behaviors: Vec::new(),
            metadata: Vec::new(),
            custom: Vec::new(),
        };
        proof {
            assert(r.indexes.deep_view() =~= Seq::empty());
            assert(r.relations.deep_view() =~= Seq::empty());
            assert(r.behaviors.deep_view() =~= Seq::empty());
            assert(r.metadata.deep_view() =~= Seq::empty());
            assert(r.custom.deep_view() =~= Seq::empty());
        }
        r
    }
}

impl Sections {
    /// The value that `default` gives: nothing set, every list empty.
    pub open spec fn empty_view() -> SectionsView {
        SectionsView {
            indexes: Seq::empty(),
            relations: Seq::empty(),
            behaviors: Seq::empty(),
            metadata: Seq::empty(),
            custom: Seq::empty(),
        }
    }
}

/// A model, a view or an interface.
#[derive(Debug, PartialEq)]
pub struct ModelNode {
    pub name: String,
    pub label: Option<String>,
    pub model_type: ModelType,
    pub source: String,
    pub line: usize,
    pub inherits: Vec<String>,
    pub description: Option<String>,
    pub attributes: Vec<FieldAttribute>,
    pub fields: Vec<FieldNode>,
    pub sections: Sections,
    pub materialized: Option<bool>,
    pub source_def: Option<ViewSourceDef>,
    pub refresh: Option<RefreshDef>,
    pub loc: SourceLocation,
}

/// The mathematical value of a [`ModelNode`].
pub struct ModelNodeView {
    pub name: Seq<char>,
    pub label: Option<Seq<char>>,
    pub model_type: ModelType,
    pub source: Seq<char>,
    pub line: usize,
    pub inherits: Seq<Seq<char>>,
    pub description: Option<Seq<char>>,
    pub attributes: Seq<FieldAttributeView>,
    pub fields: Seq<FieldNodeView>,
    pub sections: SectionsView,
    pub materialized: Option<bool>,
    pub source_def: Option<ViewSourceDefView>,
    pub refresh: Option<RefreshDefView>,
    pub loc: SourceLocationView,
}

impl DeepView for ModelNode {
    type V = ModelNodeView;

    open spec fn deep_view(&self) -> ModelNodeView {
        ModelNodeView {
            name: self.name.deep_view(),
            label: self.label.deep_view(),
            model_type: self.model_type.deep_view(),
            source: self.source.deep_view(),
            line: self.line.deep_view(),
            inherits: self.inherits.deep_view(),
            description: self.description.deep_view(),
            attributes: self.attributes.deep_view(),
            fields: self.fields.deep_view(),
            sections: self.sections.deep_view(),
            materialized: self.materialized.deep_view(),
            source_def: self.source_def.deep_view(),
            refresh: self.refresh.deep_view(),
            loc: self.loc.deep_view(),
        }
    }
}

impl Clone for ModelNode {
    fn clone(&self) -> (r: Self)
        ensures
            r.deep_view() == self.deep_view(),
    {
        ModelNode {
            name: self.name.clone(),
            label: clone_opt_string(&self.label),
            model_type: self.model_type,
            source: self.source.clone(),
            line: self.line,
            inherits: clone_vec_string(&self.inherits),
            description: clone_opt_string(&self.description),
            attributes: clone_vec_field_attribute(&self.attributes),
            fields: clone_vec_field_node(&self.fields),
            sections: self.sections.clone(),
            materialized: clone_opt_bool(&self.materialized),
            source_def: clone_opt_view_source_def(&self.source_def),
            refresh: clone_opt_refresh_def(&self.refresh),
            loc: self.loc.clone(),
        }
    }
}

/// A top-level enum.
#[derive(Debug, PartialEq)]
pub struct EnumNode {
    pub name: String,
    pub label: Option<String>,
    pub enum_type: ModelType,
    pub source: String,
    pub line: usize,
    pub inherits: Vec<String>,
    pub description: Option<String>,
    pub values: Vec<EnumValue>,
    pub loc: SourceLocation,
}

/// The mathematical value of a [`EnumNode`].
pub struct EnumNodeView {
    pub name: Seq<char>,
    pub label: Option<Seq<char>>,
    pub enum_type: ModelType,
    pub source: Seq<char>,
    pub line: usize,
    pub inherits: Seq<Seq<char>>,
    pub description: Option<Seq<char>>,
    pub values: Seq<EnumValueView>,
    pub loc: SourceLocationView,
}

impl DeepView for EnumNode {
    type V = EnumNodeView;

    open spec fn deep_view(&self) -> EnumNodeView {
        EnumNodeView {
            name: self.name.deep_view(),
            label: self.label.deep_view(),
            enum_type: self.enum_type.deep_view(),
            source: self.source.deep_view(),
            line: self.line.deep_view(),
            inherits: self.inherits.deep_view(),
            description: self.description.deep_view(),
            values: self.values.deep_view(),
            loc: self.loc.deep_view(),
        }
    }
}

impl Clone for EnumNode {
    fn clone(&self) -> (r: Self)
        ensures
            r.deep_view() == self.deep_view(),
    {
        EnumNode {
            name: self.name.clone(),
            label: clone_opt_string(&self.label),
            enum_type: self.enum_type,
            source: self.source.clone(),
            line: self.line,
            inherits: clone_vec_string(&self.inherits),
            description: clone_opt_string(&self.description),
            values: clone_vec_enum_value(&self.values),
            loc: self.loc.clone(),
        }
    }
}

/// The name and version of the project.
#[derive(Debug, PartialEq)]
pub struct ProjectInfo {
    pub name: Option<String>,
    pub version: Option<String>,
}

/// The mathematical value of a [`ProjectInfo`].
pub struct ProjectInfoView {
    pub name: Option<Seq<char>>,
    pub version: Option<Seq<char>>,
}

impl DeepView for ProjectInfo {
    type V = ProjectInfoView;

    open spec fn deep_view(&self) -> ProjectInfoView {
        ProjectInfoView {
            name: self.name.deep_view(),
            version: self.version.deep_view(),
        }
    }
}

impl Clone for ProjectInfo {
    fn clone(&self) -> (r: Self)
        ensures
            r.deep_view() == self.deep_view(),
    {
        ProjectInfo {
            name: clone_opt_string(&self.name),
            version: clone_opt_string(&self.version),
        }
    }
}

/// An error or a warning, with the place it was found at.
#[derive(Debug, PartialEq)]
pub struct Diagnostic {
    pub code: String,
    pub severity: DiagnosticSeverity,
    pub file: String,
    pub line: usize,
    pub col: usize,
    pub message: String,
}

/// The mathematical value of a [`Diagnostic`].
pub struct DiagnosticView {
    pub code: Seq<char>,
    pub severity: DiagnosticSeverity,
    pub file: Seq<char>,
    pub line: usize,
    pub col: usize,
    pub message: Seq<char>,
}

impl DeepView for Diagnostic {
    type V = DiagnosticView;

    open spec fn deep_view(&self) -> DiagnosticView {
        DiagnosticView {
            code: self.code.deep_view(),
            severity: self.severity.deep_view(),
            file: self.file.deep_view(),
            line: self.line.deep_view(),
            col: self.col.deep_view(),
            message: self.message.deep_view(),
        }
    }
}

impl Clone for Diagnostic {
    fn clone(&self) -> (r: Self)
        ensures
            r.deep_view() == self.deep_view(),
    {
        Diagnostic {
            code: self.code.clone(),
            severity: self.severity,
            file: self.file.clone(),
            line: self.line,
            col: self.col,
            message: self.message.clone(),
        }
    }
}

/// The definition of a registered attribute.
#[derive(Debug, PartialEq)]
pub struct AttributeRegistryEntry {
    pub name: String,
    pub description: Option<String>,
    pub target: Vec<String>,
    pub attr_type: String,
    pub range: Option<(NumberLit, NumberLit)>,
    pub required: bool,
    pub default_value: Option<AttrArgValue>,
}

/// The mathematical value of a [`AttributeRegistryEntry`].
pub struct AttributeRegistryEntryView {
    pub name: Seq<char>,
    pub description: Option<Seq<char>>,
    pub target: Seq<Seq<char>>,
    pub attr_type: Seq<char>,
    pub range: Option<(Seq<char>, Seq<char>)>,
    pub required: bool,
    pub default_value: Option<AttrArgView>,
}

impl DeepView for AttributeRegistryEntry {
    type V = AttributeRegistryEntryView;

    open spec fn deep_view(&self) -> AttributeRegistryEntryView {
        AttributeRegistryEntryView {
            name: self.name.deep_view(),
            description: self.description.deep_view(),
            target: self.target.deep_view(),
            attr_type: self.attr_type.deep_view(),
            range: self.range.deep_view(),
            required: self.required.deep_view(),
            default_value: self.default_value.deep_view(),
        }
    }
}

impl Clone for AttributeRegistryEntry {
    fn clone(&self) -> (r: Self)
        ensures
            r.deep_view() == self.deep_view(),
    {
        AttributeRegistryEntry {
            name: self.name.clone(),
            description: clone_opt_string(&self.description),
            target: clone_vec_string(&self.target),
            attr_type: self.attr_type.clone(),
            range: clone_opt_number_lit_number_lit(&self.range),
            required: self.required,
            default_value: clone_opt_attr_arg_value(&self.default_value),
        }
    }
}

/// What one source file holds, before files are merged.
#[derive(Debug, PartialEq)]
pub struct ParsedFile {
    pub source: String,
    pub namespace: Option<String>,
    pub models: Vec<ModelNode>,
    pub enums: Vec<EnumNode>,
    pub interfaces: Vec<ModelNode>,
    pub views: Vec<ModelNode>,
    pub attribute_registry: Vec<AttributeRegistryEntry>,
    pub imports: Vec<String>,
}

/// The mathematical value of a [`ParsedFile`].
pub struct ParsedFileView {
    pub source: Seq<char>,
    pub namespace: Option<Seq<char>>,
    pub models: Seq<ModelNodeView>,
    pub enums: Seq<EnumNodeView>,
    pub interfaces: Seq<ModelNodeView>,
    pub views: Seq<ModelNodeView>,
    pub attribute_registry: Seq<AttributeRegistryEntryView>,
    pub imports: Seq<Seq<char>>,
}

impl DeepView for ParsedFile {
    type V = ParsedFileView;

    open spec fn deep_view(&self) -> ParsedFileView {
        ParsedFileView {
            source: self.source.deep_view(),
            namespace: self.namespace.deep_view(),
            models: self.models.deep_view(),
            enums: self.enums.deep_view(),
            interfaces: self.interfaces.deep_view(),
            views: self.views.deep_view(),
            attribute_registry: self.attribute_registry.deep_view(),
            imports: self.imports.deep_view(),
        }
    }
}

impl Clone for ParsedFile {
    fn clone(&self) -> (r: Self)
        ensures
            r.deep_view() == self.deep_view(),
    {
        ParsedFile {
            source: self.source.clone(),
            namespace: clone_opt_string(&self.namespace),
            models: clone_vec_model_node(&self.models),
            enums: clone_vec_enum_node(&self.enums),
            interfaces: clone_vec_model_node(&self.interfaces),
            views: clone_vec_model_node(&self.views),
            attribute_registry: clone_vec_attribute_registry_entry(&self.attribute_registry),
            imports: clone_vec_string(&self.imports),
        }
    }
}

/// The resolved syntax tree of a project.
#[derive(Debug, PartialEq)]
pub struct M3lAst {
    pub parser_version: String,
    pub ast_version: String,
    pub project: ProjectInfo,
    pub sources: Vec<String>,
    pub models: Vec<ModelNode>,
    pub enums: Vec<EnumNode>,
    pub interfaces: Vec<ModelNode>,
    pub views: Vec<ModelNode>,
    pub attribute_registry: Vec<AttributeRegistryEntry>,
    pub errors: Vec<Diagnostic>,
    pub warnings: Vec<Diagnostic>,
}

/// The mathematical value of a [`M3lAst`].
pub struct M3lAstView {
    pub parser_version: Seq<char>,
    pub ast_version: Seq<char>,
    pub project: ProjectInfoView,
    pub sources: Seq<Seq<char>>,
    pub models: Seq<ModelNodeView>,
    pub enums: Seq<EnumNodeView>,
    pub interfaces: Seq<ModelNodeView>,
    pub views: Seq<ModelNodeView>,
    pub attribute_registry: Seq<AttributeRegistryEntryView>,
    pub errors: Seq<DiagnosticView>,
    pub warnings: Seq<DiagnosticView>,
}

impl DeepView for M3lAst {
    type V = M3lAstView;

    open spec fn deep_view(&self) -> M3lAstView {
        M3lAstView {
            parser_version: self.parser_version.deep_view(),
            ast_version: self.ast_version.deep_view(),
            project: self.project.deep_view(),
            sources: self.sources.deep_view(),
            models: self.models.deep_view(),
            enums: self.enums.deep_view(),
            interfaces: self.interfaces.deep_view(),
            views: self.views.deep_view(),
            attribute_registry: self.attribute_registry.deep_view(),
            errors: self.errors.deep_view(),
            warnings: self.warnings.deep_view(),
        }
    }
}

impl Clone for M3lAst {
    fn clone(&self) -> (r: Self)
        ensures
            r.deep_view() == self.deep_view(),
    {
        M3lAst {
            parser_version: self.parser_version.clone(),
            ast_version: self.ast_version.clone(),
            project: self.project.clone(),
            sources: clone_vec_string(&self.sources),
            models: clone_vec_model_node(&self.models),
            enums: clone_vec_enum_node(&self.enums),
            interfaces: clone_vec_model_node(&self.interfaces),
            views: clone_vec_model_node(&self.views),
            attribute_registry: clone_vec_attribute_registry_entry(&self.attribute_registry),
            errors: clone_vec_diagnostic(&self.errors),
            warnings: clone_vec_diagnostic(&self.warnings),
        }
    }
}

/// A source file: its path and its text.
#[derive(Debug, PartialEq)]
pub struct M3lFile {
    pub path: String,
    pub content: String,
}

/// The mathematical value of a [`M3lFile`].
pub struct M3lFileView {
    pub path: Seq<char>,
    pub content: Seq<char>,
}

impl DeepView for M3lFile {
    type V = M3lFileView;

    open spec fn deep_view(&self) -> M3lFileView {
        M3lFileView {
            path: self.path.deep_view(),
            content: self.content.deep_view(),
        }
    }
}

impl Clone for M3lFile {
    fn clone(&self) -> (r: Self)
        ensures
            r.deep_view() == self.deep_view(),
    {
        M3lFile {
            path: self.path.clone(),
            content: self.content.clone(),
        }
    }
}

/// An attribute definition while its lines are read: `fields` holds what each line sets, each name once.
#[derive(Debug, PartialEq)]
pub struct AttrDef {
    pub name: String,
    pub description: Option<String>,
    pub fields: Vec<(String, String)>,
}

/// The mathematical value of a [`AttrDef`].
pub struct AttrDefView {
    pub name: Seq<char>,
    pub description: Option<Seq<char>>,
    pub fields: Seq<(Seq<char>, Seq<char>)>,
}

impl DeepView for AttrDef {
    type V = AttrDefView;

    open spec fn deep_view(&self) -> AttrDefView {
        AttrDefView {
            name: self.name.deep_view(),
            description: self.description.deep_view(),
            fields: self.fields.deep_view(),
        }
    }
}

impl Clone for AttrDef {
    fn clone(&self) -> (r: Self)
        ensures
            r.deep_view() == self.deep_view(),
    {
        AttrDef {
            name: self.name.clone(),
            description: clone_opt_string(&self.description),
            fields: clone_pairs(&self.fields),
        }
    }
}

/// A top-level name as the resolver sees it: where it is defined, as what, and under which namespace.
#[derive(Debug, PartialEq)]
pub struct Definition {
    pub name: String,
    pub kind: ModelType,
    pub file: String,
    pub line: usize,
    pub namespace: Option<String>,
}

/// The mathematical value of a [`Definition`].
pub struct DefinitionView {
    pub name: Seq<char>,
    pub kind: ModelType,
    pub file: Seq<char>,
    pub line: usize,
    pub namespace: Option<Seq<char>>,
}

impl DeepView for Definition {
    type V = DefinitionView;

    open spec fn deep_view(&self) -> DefinitionView {
        DefinitionView {
            name: self.name.deep_view(),
            kind: self.kind.deep_view(),
            file: self.file.deep_view(),
            line: self.line.deep_view(),
            namespace: self.namespace.deep_view(),
        }
    }
}

impl Clone for Definition {
    fn clone(&self) -> (r: Self)
        ensures
            r.deep_view() == self.deep_view(),
    {
        Definition {
            name: self.name.clone(),
            kind: self.kind,
            file: self.file.clone(),
            line: self.line,
            namespace: clone_opt_string(&self.namespace),
        }
    }
}

/// The configuration of a project: its name, its version, and the patterns of its source files.
#[derive(Debug, PartialEq)]
pub struct M3lConfig {
    pub name: Option<String>,
    pub version: Option<String>,
    pub sources: Option<Vec<String>>,
}

/// The mathematical value of a [`M3lConfig`].
pub struct M3lConfigView {
    pub name: Option<Seq<char>>,
    pub version: Option<Seq<char>>,
    pub sources: Option<Seq<Seq<char>>>,
}

impl DeepView for M3lConfig {
    type V = M3lConfigView;

    open spec fn deep_view(&self) -> M3lConfigView {
        M3lConfigView {
            name: self.name.deep_view(),
            version: self.version.deep_view(),
            sources: self.sources.deep_view(),
        }
    }
}

impl Clone for M3lConfig {
    fn clone(&self) -> (r: Self)
        ensures
            r.deep_view() == self.deep_view(),
    {
        M3lConfig {
            name: clone_opt_string(&self.name),
            version: clone_opt_string(&self.version),
            sources: clone_opt_vec_string(&self.sources),
        }
    }
}

/// Options of parsing: the name under which the text is reported.
#[derive(Debug, PartialEq)]
pub struct ParseOptions {
    pub filename: String,
}

/// The mathematical value of a [`ParseOptions`].
pub struct ParseOptionsView {
    pub filename: Seq<char>,
}

impl DeepView for ParseOptions {
    type V = ParseOptionsView;

    open spec fn deep_view(&self) -> ParseOptionsView {
        ParseOptionsView {
            filename: self.filename.deep_view(),
        }
    }
}

impl Clone for ParseOptions {
    fn clone(&self) -> (r: Self)
        ensures
            r.deep_view() == self.deep_view(),
    {
        ParseOptions {
            filename: self.filename.clone(),
        }
    }
}

impl Default for ParseOptions {
    fn default() -> (r: Self)
        ensures
            r.deep_view() == ParseOptions::empty_view(),
    {
        let r = ParseOptions {
            filename: String::new(),
        };
        proof {
        }
        r
    }
}

impl ParseOptions {
    /// The value that `default` gives: nothing set, every list empty.
    pub open spec fn empty_view() -> ParseOptionsView {
        ParseOptionsView {
            filename: Seq::empty(),
        }
    }
}

/// Options of validating a text: strict mode, and the name under which the text is reported.
#[derive(Debug, PartialEq)]
pub struct ValidateJsonOptions {
    pub strict: bool,
    pub filename: String,
}

/// The mathematical value of a [`ValidateJsonOptions`].
pub struct ValidateJsonOptionsView {
    pub strict: bool,
    pub filename: Seq<char>,
}

impl DeepView for ValidateJsonOptions {
    type V = ValidateJsonOptionsView;

    open spec fn deep_view(&self) -> ValidateJsonOptionsView {
        ValidateJsonOptionsView {
            strict: self.strict.deep_view(),
            filename: self.filename.deep_view(),
        }
    }
}

impl Clone for ValidateJsonOptions {
    fn clone(&self) -> (r: Self)
        ensures
            r.deep_view() == self.deep_view(),
    {
        ValidateJsonOptions {
            strict: self.strict,
            filename: self.filename.clone(),
        }
    }
}

impl Default for ValidateJsonOptions {
    fn default() -> (r: Self)
        ensures
            r.deep_view() == ValidateJsonOptions::empty_view(),
    {
        let r = ValidateJsonOptions {
            strict: false,
            filename: String::new(),
        };
        proof {
        }
        r
    }
}

impl ValidateJsonOptions {
    /// The value that `default` gives: nothing set, every list empty.
    pub open spec fn empty_view() -> ValidateJsonOptionsView {
        ValidateJsonOptionsView {
            strict: false,
            filename: Seq::empty(),
        }
    }
}

/// Options of validation; `strict` adds the style warnings.
#[derive(Debug, PartialEq)]
pub struct ValidateOptions {
    pub strict: bool,
}

/// The mathematical value of a [`ValidateOptions`].
pub struct ValidateOptionsView {
    pub strict: bool,
}

impl DeepView for ValidateOptions {
    type V = ValidateOptionsView;

    open spec fn deep_view(&self) -> ValidateOptionsView {
        ValidateOptionsView {
            strict: self.strict.deep_view(),
        }
    }
}

impl Clone for ValidateOptions {
    fn clone(&self) -> (r: Self)
        ensures
            r.deep_view() == self.deep_view(),
    {
        ValidateOptions {
            strict: self.strict,
        }
    }
}

impl Default for ValidateOptions {
    fn default() -> (r: Self)
        ensures
            r.deep_view() == ValidateOptions::empty_view(),
    {
        let r = ValidateOptions {
            strict: false,
        };
        proof {
        }
        r
    }
}

impl ValidateOptions {
    /// The value that `default` gives: nothing set, every list empty.
    pub open spec fn empty_view() -> ValidateOptionsView {
        ValidateOptionsView {
            strict: false,
        }
    }
}

/// The diagnostics of a validated tree.
#[derive(Debug, PartialEq)]
pub struct ValidateResult {
    pub errors: Vec<Diagnostic>,
    pub warnings: Vec<Diagnostic>,
}

/// The mathematical value of a [`ValidateResult`].
pub struct ValidateResultView {
    pub errors: Seq<DiagnosticView>,
    pub warnings: Seq<DiagnosticView>,
}

impl DeepView for ValidateResult {
    type V = ValidateResultView;

    open spec fn deep_view(&self) -> ValidateResultView {
        ValidateResultView {
            errors: self.errors.deep_view(),
            warnings: self.warnings.deep_view(),
        }
    }
}

impl Clone for ValidateResult {
    fn clone(&self) -> (r: Self)
        ensures
            r.deep_view() == self.deep_view(),
    {
        ValidateResult {
            errors: clone_vec_diagnostic(&self.errors),
            warnings: clone_vec_diagnostic(&self.warnings),
        }
    }
}

/// A copy of `o`.
pub fn clone_opt_vec_param_value(o: &Option<Vec<ParamValue>>) -> (r: Option<Vec<ParamValue>>)
    ensures
        r.deep_view() == o.deep_view(),
{
    match o {
        Some(x) => Some(clone_vec_param_value(x)),
        None => None,
    }
}

/// A copy of each item of `v`, in order.
pub fn clone_vec_param_value(v: &Vec<ParamValue>) -> (r: Vec<ParamValue>)
    ensures
        r.deep_view() == v.deep_view(),
{
    let mut out: Vec<ParamValue> = Vec::new();
    let mut i: usize = 0;
    while i < v.len()
        invariant
            i <= v.len(),
            out.len() == i,
            forall|j: int| 0 <= j < i ==> out@[j].deep_view() == v@[j].deep_view(),
        decreases v.len() - i,
    {
        out.push(v[i].clone());
        i += 1;
    }
    proof {
        assert(out.deep_view() =~= v.deep_view());
    }
    out
}

/// A copy of `o`.
pub fn clone_opt_vec_custom_attribute(o: &Option<Vec<CustomAttribute>>) -> (r: Option<Vec<CustomAttribute>>)
    ensures
        r.deep_view() == o.deep_view(),
{
    match o {
        Some(x) => Some(clone_vec_custom_attribute(x)),
        None => None,
    }
}

/// A copy of each item of `v`, in order.
pub fn clone_vec_custom_attribute(v: &Vec<CustomAttribute>) -> (r: Vec<CustomAttribute>)
    ensures
        r.deep_view() == v.deep_view(),
{
    let mut out: Vec<CustomAttribute> = Vec::new();
    let mut i: usize = 0;
    while i < v.len()
        invariant
            i <= v.len(),
            out.len() == i,
            forall|j: int| 0 <= j < i ==> out@[j].deep_view() == v@[j].deep_view(),
        decreases v.len() - i,
    {
        out.push(v[i].clone());
        i += 1;
    }
    proof {
        assert(out.deep_view() =~= v.deep_view());
    }
    out
}

/// A copy of `o`.
pub fn clone_opt_lookup_def(o: &Option<LookupDef>) -> (r: Option<LookupDef>)
    ensures
        r.deep_view() == o.deep_view(),
{
    match o {
        Some(x) => Some(x.clone()),
        None => None,
    }
}

/// A copy of `o`.
pub fn clone_opt_rollup_def(o: &Option<RollupDef>) -> (r: Option<RollupDef>)
    ensures
        r.deep_view() == o.deep_view(),
{
    match o {
        Some(x) => Some(x.clone()),
        None => None,
    }
}

/// A copy of `o`.
pub fn clone_opt_computed_def(o: &Option<ComputedDef>) -> (r: Option<ComputedDef>)
    ensures
        r.deep_view() == o.deep_view(),
{
    match o {
        Some(x) => Some(x.clone()),
        None => None,
    }
}

/// A copy of `o`.
pub fn clone_opt_vec_enum_value(o: &Option<Vec<EnumValue>>) -> (r: Option<Vec<EnumValue>>)
    ensures
        r.deep_view() == o.deep_view(),
{
    match o {
        Some(x) => Some(clone_vec_enum_value(x)),
        None => None,
    }
}

/// A copy of each item of `v`, in order.
pub fn clone_vec_enum_value(v: &Vec<EnumValue>) -> (r: Vec<EnumValue>)
    ensures
        r.deep_view() == v.deep_view(),
{
    let mut out: Vec<EnumValue> = Vec::new();
    let mut i: usize = 0;
    while i < v.len()
        invariant
            i <= v.len(),
            out.len() == i,
            forall|j: int| 0 <= j < i ==> out@[j].deep_view() == v@[j].deep_view(),
        decreases v.len() - i,
    {
        out.push(v[i].clone());
        i += 1;
    }
    proof {
        assert(out.deep_view() =~= v.deep_view());
    }
    out
}

/// A copy of `o`.
pub fn clone_opt_vec_string(o: &Option<Vec<String>>) -> (r: Option<Vec<String>>)
    ensures
        r.deep_view() == o.deep_view(),
{
    match o {
        Some(x) => Some(clone_vec_string(x)),
        None => None,
    }
}

/// A copy of each item of `v`, in order.
pub fn clone_vec_string(v: &Vec<String>) -> (r: Vec<String>)
    ensures
        r.deep_view() == v.deep_view(),
{
    let mut out: Vec<String> = Vec::new();
    let mut i: usize = 0;
    while i < v.len()
        invariant
            i <= v.len(),
            out.len() == i,
            forall|j: int| 0 <= j < i ==> out@[j].deep_view() == v@[j].deep_view(),
        decreases v.len() - i,
    {
        out.push(v[i].clone());
        i += 1;
    }
    proof {
        assert(out.deep_view() =~= v.deep_view());
    }
    out
}

/// A copy of `o`.
pub fn clone_opt_string(o: &Option<String>) -> (r: Option<String>)
    ensures
        r.deep_view() == o.deep_view(),
{
    match o {
        Some(x) => Some(x.clone()),
        None => None,
    }
}

/// A copy of each item of `v`, in order.
pub fn clone_vec_field_attribute(v: &Vec<FieldAttribute>) -> (r: Vec<FieldAttribute>)
    ensures
        r.deep_view() == v.deep_view(),
{
    let mut out: Vec<FieldAttribute> = Vec::new();
    let mut i: usize = 0;
    while i < v.len()
        invariant
            i <= v.len(),
            out.len() == i,
            forall|j: int| 0 <= j < i ==> out@[j].deep_view() == v@[j].deep_view(),
        decreases v.len() - i,
    {
        out.push(v[i].clone());
        i += 1;
    }
    proof {
        assert(out.deep_view() =~= v.deep_view());
    }
    out
}

/// A copy of each item of `v`, in order.
pub fn clone_vec_attribute_registry_entry(v: &Vec<AttributeRegistryEntry>) -> (r: Vec<AttributeRegistryEntry>)
    ensures
        r.deep_view() == v.deep_view(),
{
    let mut out: Vec<AttributeRegistryEntry> = Vec::new();
    let mut i: usize = 0;
    while i < v.len()
        invariant
            i <= v.len(),
            out.len() == i,
            forall|j: int| 0 <= j < i ==> out@[j].deep_view() == v@[j].deep_view(),
        decreases v.len() - i,
    {
        out.push(v[i].clone());
        i += 1;
    }
    proof {
        assert(out.deep_view() =~= v.deep_view());
    }
    out
}

/// A copy of each item of `v`, in order.
pub fn clone_vec_model_node(v: &Vec<ModelNode>) -> (r: Vec<ModelNode>)
    ensures
        r.deep_view() == v.deep_view(),
{
    let mut out: Vec<ModelNode> = Vec::new();
    let mut i: usize = 0;
    while i < v.len()
        invariant
            i <= v.len(),
            out.len() == i,
            forall|j: int| 0 <= j < i ==> out@[j].deep_view() == v@[j].deep_view(),
        decreases v.len() - i,
    {
        out.push(v[i].clone());
        i += 1;
    }
    proof {
        assert(out.deep_view() =~= v.deep_view());
    }
    out
}

/// A copy of each item of `v`, in order.
pub fn clone_vec_enum_node(v: &Vec<EnumNode>) -> (r: Vec<EnumNode>)
    ensures
        r.deep_view() == v.deep_view(),
{
    let mut out: Vec<EnumNode> = Vec::new();
    let mut i: usize = 0;
    while i < v.len()
        invariant
            i <= v.len(),
            out.len() == i,
            forall|j: int| 0 <= j < i ==> out@[j].deep_view() == v@[j].deep_view(),
        decreases v.len() - i,
    {
        out.push(v[i].clone());
        i += 1;
    }
    proof {
        assert(out.deep_view() =~= v.deep_view());
    }
    out
}

/// A copy of each item of `v`, in order.
pub fn clone_vec_diagnostic(v: &Vec<Diagnostic>) -> (r: Vec<Diagnostic>)
    ensures
        r.deep_view() == v.deep_view(),
{
    let mut out: Vec<Diagnostic> = Vec::new();
    let mut i: usize = 0;
    while i < v.len()
        invariant
            i <= v.len(),
            out.len() == i,
            forall|j: int| 0 <= j < i ==> out@[j].deep_view() == v@[j].deep_view(),
        decreases v.len() - i,
    {
        out.push(v[i].clone());
        i += 1;
    }
    proof {
        assert(out.deep_view() =~= v.deep_view());
    }
    out
}

/// A copy of each item of `v`, in order.
pub fn clone_vec_attr_arg_value(v: &Vec<AttrArgValue>) -> (r: Vec<AttrArgValue>)
    ensures
        r.deep_view() == v.deep_view(),
{
    let mut out: Vec<AttrArgValue> = Vec::new();
    let mut i: usize = 0;
    while i < v.len()
        invariant
            i <= v.len(),
            out.len() == i,
            forall|j: int| 0 <= j < i ==> out@[j].deep_view() == v@[j].deep_view(),
        decreases v.len() - i,
    {
        out.push(v[i].clone());
        i += 1;
    }
    proof {
        assert(out.deep_view() =~= v.deep_view());
    }
    out
}

/// A copy of each item of `v`, in order.
pub fn clone_vec_raw_attribute(v: &Vec<RawAttribute>) -> (r: Vec<RawAttribute>)
    ensures
        r.deep_view() == v.deep_view(),
{
    let mut out: Vec<RawAttribute> = Vec::new();
    let mut i: usize = 0;
    while i < v.len()
        invariant
            i <= v.len(),
            out.len() == i,
            forall|j: int| 0 <= j < i ==> out@[j].deep_view() == v@[j].deep_view(),
        decreases v.len() - i,
    {
        out.push(v[i].clone());
        i += 1;
    }
    proof {
        assert(out.deep_view() =~= v.deep_view());
    }
    out
}

/// A copy of `o`.
pub fn clone_opt_bool(o: &Option<bool>) -> (r: Option<bool>)
    ensures
        r.deep_view() == o.deep_view(),
{
    match o {
        Some(x) => Some(*x),
        None => None,
    }
}

/// A copy of `o`.
pub fn clone_opt_code_block(o: &Option<CodeBlock>) -> (r: Option<CodeBlock>)
    ensures
        r.deep_view() == o.deep_view(),
{
    match o {
        Some(x) => Some(x.clone()),
        None => None,
    }
}

/// A copy of `o`.
pub fn clone_opt_vec_attr_arg_value(o: &Option<Vec<AttrArgValue>>) -> (r: Option<Vec<AttrArgValue>>)
    ensures
        r.deep_view() == o.deep_view(),
{
    match o {
        Some(x) => Some(clone_vec_attr_arg_value(x)),
        None => None,
    }
}

/// A copy of `o`.
pub fn clone_opt_custom_attribute_parsed(o: &Option<CustomAttributeParsed>) -> (r: Option<CustomAttributeParsed>)
    ensures
        r.deep_view() == o.deep_view(),
{
    match o {
        Some(x) => Some(x.clone()),
        None => None,
    }
}

/// A copy of `o`.
pub fn clone_opt_json_value(o: &Option<JsonValue>) -> (r: Option<JsonValue>)
    ensures
        r.deep_view() == o.deep_view(),
{
    match o {
        Some(x) => Some(x.clone()),
        None => None,
    }
}

/// A copy of `o`.
pub fn clone_opt_vec_join_def(o: &Option<Vec<JoinDef>>) -> (r: Option<Vec<JoinDef>>)
    ensures
        r.deep_view() == o.deep_view(),
{
    match o {
        Some(x) => Some(clone_vec_join_def(x)),
        None => None,
    }
}

/// A copy of each item of `v`, in order.
pub fn clone_vec_join_def(v: &Vec<JoinDef>) -> (r: Vec<JoinDef>)
    ensures
        r.deep_view() == v.deep_view(),
{
    let mut out: Vec<JoinDef> = Vec::new();
    let mut i: usize = 0;
    while i < v.len()
        invariant
            i <= v.len(),
            out.len() == i,
            forall|j: int| 0 <= j < i ==> out@[j].deep_view() == v@[j].deep_view(),
        decreases v.len() - i,
    {
        out.push(v[i].clone());
        i += 1;
    }
    proof {
        assert(out.deep_view() =~= v.deep_view());
    }
    out
}

/// A copy of `o`.
pub fn clone_opt_view_source_def(o: &Option<ViewSourceDef>) -> (r: Option<ViewSourceDef>)
    ensures
        r.deep_view() == o.deep_view(),
{
    match o {
        Some(x) => Some(x.clone()),
        None => None,
    }
}

/// A copy of `o`.
pub fn clone_opt_refresh_def(o: &Option<RefreshDef>) -> (r: Option<RefreshDef>)
    ensures
        r.deep_view() == o.deep_view(),
{
    match o {
        Some(x) => Some(x.clone()),
        None => None,
    }
}

/// A copy of `o`.
pub fn clone_opt_number_lit_number_lit(o: &Option<(NumberLit, NumberLit)>) -> (r: Option<(NumberLit, NumberLit)>)
    ensures
        r.deep_view() == o.deep_view(),
{
    match o {
        Some(x) => Some((x.0.clone(), x.1.clone())),
        None => None,
    }
}

/// A copy of `o`.
pub fn clone_opt_attr_arg_value(o: &Option<AttrArgValue>) -> (r: Option<AttrArgValue>)
    ensures
        r.deep_view() == o.deep_view(),
{
    match o {
        Some(x) => Some(x.clone()),
        None => None,
    }
}

} // verus!
