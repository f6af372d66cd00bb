//! The JSON form of the resolved tree and of the diagnostics: which keys
//! each node has, in which order, and which of them stand only where
//! something is set.

use vstd::prelude::*;
use crate::report::{model_type_word, type_word};
use crate::sections::opt_member;
use crate::types::{
    clone_json, lemma_field_view_fields, lemma_json_array, AttrArgValue, AttrArgView,
    AttributeRegistryEntry, AttributeRegistryEntryView, ComputedDef, ComputedDefView,
    CustomAttribute, CustomAttributeParsed, CustomAttributeParsedView, CustomAttributeView,
    DefaultValueType, Diagnostic, DiagnosticSeverity, DiagnosticView, EnumNode, EnumNodeView,
    EnumValue, EnumValueView, FieldAttribute, FieldAttributeView, FieldKind, FieldNode,
    FieldNodeView, JoinDef, JoinDefView, JsonMember, JsonValue, JsonView, LookupDef,
    LookupDefView, M3lAst, M3lAstView, ModelNode, ModelNodeView, NumberLit, ParamValue,
    ParamView, ProjectInfo, ProjectInfoView, RefreshDef, RefreshDefView, RollupDef,
    RollupDefView, Sections, SectionsView, SourceLocation, SourceLocationView, ValidateResult,
    ValidateResultView, ViewSourceDef, ViewSourceDefView,
};
use crate::values::{arg_json, object, push_member, string_values, text_json};

verus! {

/// The word for a kind of field.
pub open spec fn kind_word(k: FieldKind) -> Seq<char> {
    match k {
        FieldKind::Stored => "stored"@,
        FieldKind::Computed => "computed"@,
        FieldKind::Lookup => "lookup"@,
        FieldKind::Rollup => "rollup"@,
    }
}

/// The word for a kind of field.
pub fn kind_text(k: FieldKind) -> (r: &'static str)
    ensures
        r@ == kind_word(k),
{
    match k {
        FieldKind::Stored => "stored",
        FieldKind::Computed => "computed",
        FieldKind::Lookup => "lookup",
        FieldKind::Rollup => "rollup",
    }
}

/// The word for the type of a default value.
pub open spec fn default_type_word(t: DefaultValueType) -> Seq<char> {
    match t {
        DefaultValueType::Literal => "literal"@,
        DefaultValueType::Expression => "expression"@,
    }
}

/// The word for the type of a default value.
pub fn default_type_text(t: DefaultValueType) -> (r: &'static str)
    ensures
        r@ == default_type_word(t),
{
    match t {
        DefaultValueType::Literal => "literal",
        DefaultValueType::Expression => "expression",
    }
}

/// The word for a severity.
pub open spec fn severity_word(s: DiagnosticSeverity) -> Seq<char> {
    match s {
        DiagnosticSeverity::Error => "error"@,
        DiagnosticSeverity::Warning => "warning"@,
    }
}

/// The word for a severity.
pub fn severity_text(s: DiagnosticSeverity) -> (r: &'static str)
    ensures
        r@ == severity_word(s),
{
    match s {
        DiagnosticSeverity::Error => "error",
        DiagnosticSeverity::Warning => "warning",
    }
}

/// The JSON forms of a list of strings.
pub fn strings_to_json(list: &Vec<String>) -> (r: JsonValue)
    ensures
        r.deep_view() == JsonView::Array(string_values(list.deep_view())),
{
    let mut out: Vec<JsonValue> = Vec::new();
    let mut i: usize = 0;
    while i < list.len()
        invariant
            i <= list@.len(),
            out@.len() == i,
            forall|j: int| 0 <= j < i ==> out@[j].deep_view() == JsonView::String(list@[j]@),
        decreases list.len() - i,
    {
        out.push(JsonValue::String(list[i].clone()));
        i += 1;
    }
    proof {
        lemma_json_array(out);
        assert(out.deep_view() =~= string_values(list.deep_view()));
    }
    JsonValue::Array(out)
}

/// An argument as JSON: a string, a number or a boolean.
pub fn arg_to_json(a: &AttrArgValue) -> (r: JsonValue)
    ensures
        r.deep_view() == arg_json(a.deep_view()),
{
    match a {
        AttrArgValue::String(s) => JsonValue::String(s.clone()),
        AttrArgValue::Number(n) => JsonValue::Number(n.clone()),
        AttrArgValue::Bool(b) => JsonValue::Bool(*b),
    }
}

/// The JSON forms of a list of arguments.
pub open spec fn arg_json_list(list: Seq<AttrArgView>) -> Seq<JsonView> {
    Seq::new(list.len(), |i: int| arg_json(list[i]))
}

/// Turns a list of arguments into JSON.
pub fn args_to_json(list: &Vec<AttrArgValue>) -> (r: JsonValue)
    ensures
        r.deep_view() == JsonView::Array(arg_json_list(list.deep_view())),
{
    let mut out: Vec<JsonValue> = Vec::new();
    let mut i: usize = 0;
    while i < list.len()
        invariant
            i <= list@.len(),
            out@.len() == i,
            forall|j: int| 0 <= j < i ==> out@[j].deep_view() == arg_json(list@[j].deep_view()),
        decreases list.len() - i,
    {
        out.push(arg_to_json(&list[i]));
        i += 1;
    }
    proof {
        lemma_json_array(out);
        assert(out.deep_view() =~= arg_json_list(list.deep_view()));
    }
    JsonValue::Array(out)
}

/// A parameter of a type as JSON: a string or a number.
pub open spec fn param_json(p: ParamView) -> JsonView {
    match p {
        ParamView::String(s) => JsonView::String(s),
        ParamView::Number(n) => JsonView::Number(n),
    }
}

/// The JSON forms of a list of parameters.
pub open spec fn param_json_list(list: Seq<ParamView>) -> Seq<JsonView> {
    Seq::new(list.len(), |i: int| param_json(list[i]))
}

/// Turns a list of parameters into JSON.
pub fn params_to_json(list: &Vec<ParamValue>) -> (r: JsonValue)
    ensures
        r.deep_view() == JsonView::Array(param_json_list(list.deep_view())),
{
    let mut out: Vec<JsonValue> = Vec::new();
    let mut i: usize = 0;
    while i < list.len()
        invariant
            i <= list@.len(),
            out@.len() == i,
            forall|j: int| 0 <= j < i ==> out@[j].deep_view() == param_json(list@[j].deep_view()),
        decreases list.len() - i,
    {
        let v = match &list[i] {
            ParamValue::String(s) => JsonValue::String(s.clone()),
            ParamValue::Number(n) => JsonValue::Number(n.clone()),
        };
        out.push(v);
        i += 1;
    }
    proof {
        lemma_json_array(out);
        assert(out.deep_view() =~= param_json_list(list.deep_view()));
    }
    JsonValue::Array(out)
}

/// Turns a range into JSON: the list of its two ends.
pub fn range_to_json(range: &(NumberLit, NumberLit)) -> (r: JsonValue)
    ensures
        r.deep_view() == JsonView::Array(
            seq![JsonView::Number(range.0.text@), JsonView::Number(range.1.text@)],
        ),
{
    let mut out: Vec<JsonValue> = Vec::new();
    out.push(JsonValue::Number(range.0.clone()));
    out.push(JsonValue::Number(range.1.clone()));
    proof {
        lemma_json_array(out);
        assert(out.deep_view() =~= seq![
            JsonView::Number(range.0.text@),
            JsonView::Number(range.1.text@),
        ]);
    }
    JsonValue::Array(out)
}

/// The members of the JSON form of the sections of a model: the four fixed
/// buckets, then the custom ones beside them.
pub open spec fn sections_members(v: SectionsView) -> Seq<(Seq<char>, JsonView)> {
    seq![
        ("indexes"@, JsonView::Array(v.indexes)),
        ("relations"@, JsonView::Array(v.relations)),
        ("behaviors"@, JsonView::Array(v.behaviors)),
        ("metadata"@, JsonView::Object(v.metadata)),
    ] + v.custom
}

/// The JSON form of the sections of a model.
pub open spec fn sections_json(v: SectionsView) -> JsonView {
    JsonView::Object(sections_members(v))
}

fn values_to_json(list: &Vec<JsonValue>) -> (r: JsonValue)
    ensures
        r.deep_view() == JsonView::Array(list.deep_view()),
{
    let c = crate::types::clone_vec_json_value(list);
    proof {
        lemma_json_array(c);
    }
    JsonValue::Array(c)
}

/// Turns the sections of a model into JSON.
pub fn sections_to_json(v: &Sections) -> (r: JsonValue)
    ensures
        r.deep_view() == sections_json(v.deep_view()),
{
    let mut m: Vec<JsonMember> = Vec::new();
    proof {
        assert(m.deep_view() =~= Seq::empty());
    }
    push_member(&mut m, "indexes", values_to_json(&v.indexes));
    push_member(&mut m, "relations", values_to_json(&v.relations));
    push_member(&mut m, "behaviors", values_to_json(&v.behaviors));
    push_member(&mut m, "metadata", object(crate::types::clone_vec_json_member(&v.metadata)));
    let ghost fixed = m.deep_view();
    let mut custom = crate::types::clone_vec_json_member(&v.custom);
    m.append(&mut custom);
    proof {
        assert(m.deep_view() =~= fixed + v.custom.deep_view());
        assert(m.deep_view() =~= sections_members(v.deep_view()));
    }
    object(m)
}

/// Part 1 of the members of the JSON form of a [`SourceLocation`].
pub open spec fn source_location_members_1(v: SourceLocationView) -> Seq<(Seq<char>, JsonView)> {
    seq![("file"@, JsonView::String(v.file))]
        + seq![("line"@, JsonView::Int(v.line as int))]
        + seq![("col"@, JsonView::Int(v.col as int))]
}

/// The members of the JSON form of a [`SourceLocation`], in order. 
pub open spec fn source_location_members(v: SourceLocationView) -> Seq<(Seq<char>, JsonView)> {
    source_location_members_1(v)
}

/// The JSON form of a [`SourceLocation`].
pub open spec fn source_location_json(v: SourceLocationView) -> JsonView {
    JsonView::Object(source_location_members(v))
}

fn source_location_add_1(v: &SourceLocation, m: &mut Vec<JsonMember>)
    ensures
        final(m).deep_view() == old(m).deep_view() + source_location_members_1(v.deep_view()),
{
    let ghost start = m.deep_view();
    push_member(m, "file", JsonValue::String(v.file.clone()));
    assert(m.deep_view() =~= start + (
        seq![("file"@, JsonView::String(v.deep_view().file))]
    ));
    push_member(m, "line", JsonValue::UInt(v.line as u64));
    assert(m.deep_view() =~= start + (
        seq![("file"@, JsonView::String(v.deep_view().file))]
        + seq![("line"@, JsonView::Int(v.deep_view().line as int))]
    ));
    push_member(m, "col", JsonValue::UInt(v.col as u64));
    assert(m.deep_view() =~= start + (
        seq![("file"@, JsonView::String(v.deep_view().file))]
        + seq![("line"@, JsonView::Int(v.deep_view().line as int))]
        + seq![("col"@, JsonView::Int(v.deep_view().col as int))]
    ));
}

/// Turns a [`SourceLocation`] into JSON.
pub fn source_location_to_json(v: &SourceLocation) -> (r: JsonValue)
    ensures
        r.deep_view() == source_location_json(v.deep_view()),
{
    let mut m: Vec<JsonMember> = Vec::new();
    proof {
        assert(m.deep_view() =~= Seq::empty());
    }
    source_location_add_1(v, &mut m);
    proof {
        assert(m.deep_view() =~= source_location_members(v.deep_view()));
    }
    object(m)
}

/// Part 1 of the members of the JSON form of a [`FieldAttribute`].
pub open spec fn field_attribute_members_1(v: FieldAttributeView) -> Seq<(Seq<char>, JsonView)> {
    seq![("name"@, JsonView::String(v.name))]
        + opt_member(
            "args"@,
            match v.args {
                Some(x) => Some(JsonView::Array(arg_json_list(x))),
                None => None,
            },
        )
        + opt_member(
            "cascade"@,
            match v.cascade {
                Some(x) => Some(JsonView::String(x)),
                None => None,
            },
        )
        + opt_member(
            "isStandard"@,
            match v.is_standard {
                Some(x) => Some(JsonView::Bool(x)),
                None => None,
            },
        )
}

/// Part 2 of the members of the JSON form of a [`FieldAttribute`].
pub open spec fn field_attribute_members_2(v: FieldAttributeView) -> Seq<(Seq<char>, JsonView)> {
    opt_member(
        "isRegistered"@,
        match v.is_registered {
            Some(x) => Some(JsonView::Bool(x)),
            None => None,
        },
    )
}

/// The members of the JSON form of a [`FieldAttribute`], in order. Arguments,
/// cascade mark and the two flags stand only where they are set.
pub open spec fn field_attribute_members(v: FieldAttributeView) -> Seq<(Seq<char>, JsonView)> {
    field_attribute_members_1(v)
        + field_attribute_members_2(v)
}

/// The JSON form of a [`FieldAttribute`].
pub open spec fn field_attribute_json(v: FieldAttributeView) -> JsonView {
    JsonView::Object(field_attribute_members(v))
}

/// The JSON forms of a list of [`FieldAttribute`].
pub open spec fn field_attribute_json_list(list: Seq<FieldAttributeView>) -> Seq<JsonView> {
    Seq::new(list.len(), |i: int| field_attribute_json(list[i]))
}

/// Turns a list of [`FieldAttribute`] into JSON.
pub fn field_attribute_list_to_json(list: &Vec<FieldAttribute>) -> (r: JsonValue)
    ensures
        r.deep_view() == JsonView::Array(field_attribute_json_list(list.deep_view())),
{
    let mut out: Vec<JsonValue> = Vec::new();
    let mut i: usize = 0;
    while i < list.len()
        invariant
            i <= list@.len(),
            out@.len() == i,
            forall|j: int| 0 <= j < i ==> out@[j].deep_view() == field_attribute_json(list@[j].deep_view()),
        decreases list.len() - i,
    {
        out.push(field_attribute_to_json(&list[i]));
        i += 1;
    }
    proof {
        lemma_json_array(out);
        assert(out.deep_view() =~= field_attribute_json_list(list.deep_view()));
    }
    JsonValue::Array(out)
}

fn field_attribute_add_1(v: &FieldAttribute, m: &mut Vec<JsonMember>)
    ensures
        final(m).deep_view() == old(m).deep_view() + field_attribute_members_1(v.deep_view()),
{
    let ghost start = m.deep_view();
    push_member(m, "name", JsonValue::String(v.name.clone()));
    assert(m.deep_view() =~= start + (
        seq![("name"@, JsonView::String(v.deep_view().name))]
    ));
    match &v.args {
        Some(x) => {
            push_member(m, "args", args_to_json(x));
        },
        None => {},
    }
    assert(m.deep_view() =~= start + (
        seq![("name"@, JsonView::String(v.deep_view().name))]
        + opt_member(
            "args"@,
            match v.deep_view().args {
                Some(x) => Some(JsonView::Array(arg_json_list(x))),
                None => None,
            },
        )
    ));
    match &v.cascade {
        Some(x) => {
            push_member(m, "cascade", JsonValue::String(x.clone()));
        },
        None => {},
    }
    assert(m.deep_view() =~= start + (
        seq![("name"@, JsonView::String(v.deep_view().name))]
        + opt_member(
            "args"@,
            match v.deep_view().args {
                Some(x) => Some(JsonView::Array(arg_json_list(x))),
                None => None,
            },
        )
        + opt_member(
            "cascade"@,
            match v.deep_view().cascade {
                Some(x) => Some(JsonView::String(x)),
                None => None,
            },
        )
    ));
    match &v.is_standard {
        Some(x) => {
            push_member(m, "isStandard", JsonValue::Bool(*x));
        },
        None => {},
    }
    assert(m.deep_view() =~= start + (
        seq![("name"@, JsonView::String(v.deep_view().name))]
        + opt_member(
            "args"@,
            match v.deep_view().args {
                Some(x) => Some(JsonView::Array(arg_json_list(x))),
                None => None,
            },
        )
        + opt_member(
            "cascade"@,
            match v.deep_view().cascade {
                Some(x) => Some(JsonView::String(x)),
                None => None,
            },
        )
        + opt_member(
            "isStandard"@,
            match v.deep_view().is_standard {
                Some(x) => Some(JsonView::Bool(x)),
                None => None,
            },
        )
    ));
}

fn field_attribute_add_2(v: &FieldAttribute, m: &mut Vec<JsonMember>)
    ensures
        final(m).deep_view() == old(m).deep_view() + field_attribute_members_2(v.deep_view()),
{
    let ghost start = m.deep_view();
    match &v.is_registered {
        Some(x) => {
            push_member(m, "isRegistered", JsonValue::Bool(*x));
        },
        None => {},
    }
    assert(m.deep_view() =~= start + (
        opt_member(
            "isRegistered"@,
            match v.deep_view().is_registered {
                Some(x) => Some(JsonView::Bool(x)),
                None => None,
            },
        )
    ));
}

/// Turns a [`FieldAttribute`] into JSON.
pub fn field_attribute_to_json(v: &FieldAttribute) -> (r: JsonValue)
    ensures
        r.deep_view() == field_attribute_json(v.deep_view()),
{
    let mut m: Vec<JsonMember> = Vec::new();
    proof {
        assert(m.deep_view() =~= Seq::empty());
    }
    field_attribute_add_1(v, &mut m);
    field_attribute_add_2(v, &mut m);
    proof {
        assert(m.deep_view() =~= field_attribute_members(v.deep_view()));
    }
    object(m)
}

/// Part 1 of the members of the JSON form of a [`CustomAttributeParsed`].
pub open spec fn custom_attribute_parsed_members_1(
    v: CustomAttributeParsedView,
) -> Seq<(Seq<char>, JsonView)> {
    seq![("name"@, JsonView::String(v.name))]
        + seq![("arguments"@, JsonView::Array(arg_json_list(v.arguments)))]
}

/// The members of the JSON form of a [`CustomAttributeParsed`], in order. 
pub open spec fn custom_attribute_parsed_members(
    v: CustomAttributeParsedView,
) -> Seq<(Seq<char>, JsonView)> {
    custom_attribute_parsed_members_1(v)
}

/// The JSON form of a [`CustomAttributeParsed`].
pub open spec fn custom_attribute_parsed_json(v: CustomAttributeParsedView) -> JsonView {
    JsonView::Object(custom_attribute_parsed_members(v))
}

fn custom_attribute_parsed_add_1(v: &CustomAttributeParsed, m: &mut Vec<JsonMember>)
    ensures
        final(m).deep_view() == old(m).deep_view() + custom_attribute_parsed_members_1(v.deep_view()),
{
    let ghost start = m.deep_view();
    push_member(m, "name", JsonValue::String(v.name.clone()));
    assert(m.deep_view() =~= start + (
        seq![("name"@, JsonView::String(v.deep_view().name))]
    ));
    push_member(m, "arguments", args_to_json(&v.arguments));
    assert(m.deep_view() =~= start + (
        seq![("name"@, JsonView::String(v.deep_view().name))]
        + seq![("arguments"@, JsonView::Array(arg_json_list(v.deep_view().arguments)))]
    ));
}

/// Turns a [`CustomAttributeParsed`] into JSON.
pub fn custom_attribute_parsed_to_json(v: &CustomAttributeParsed) -> (r: JsonValue)
    ensures
        r.deep_view() == custom_attribute_parsed_json(v.deep_view()),
{
    let mut m: Vec<JsonMember> = Vec::new();
    proof {
        assert(m.deep_view() =~= Seq::empty());
    }
    custom_attribute_parsed_add_1(v, &mut m);
    proof {
        assert(m.deep_view() =~= custom_attribute_parsed_members(v.deep_view()));
    }
    object(m)
}

/// Part 1 of the members of the JSON form of a [`CustomAttribute`].
pub open spec fn custom_attribute_members_1(v: CustomAttributeView) -> Seq<(Seq<char>, JsonView)> {
    seq![("content"@, JsonView::String(v.content))]
        + seq![("raw"@, JsonView::String(v.raw))]
        + opt_member(
            "parsed"@,
            match v.parsed {
                Some(x) => Some(custom_attribute_parsed_json(x)),
                None => None,
            },
        )
}

/// The members of the JSON form of a [`CustomAttribute`], in order. 
pub open spec fn custom_attribute_members(v: CustomAttributeView) -> Seq<(Seq<char>, JsonView)> {
    custom_attribute_members_1(v)
}

/// The JSON form of a [`CustomAttribute`].
pub open spec fn custom_attribute_json(v: CustomAttributeView) -> JsonView {
    JsonView::Object(custom_attribute_members(v))
}

/// The JSON forms of a list of [`CustomAttribute`].
pub open spec fn custom_attribute_json_list(list: Seq<CustomAttributeView>) -> Seq<JsonView> {
    Seq::new(list.len(), |i: int| custom_attribute_json(list[i]))
}

/// Turns a list of [`CustomAttribute`] into JSON.
pub fn custom_attribute_list_to_json(list: &Vec<CustomAttribute>) -> (r: JsonValue)
    ensures
        r.deep_view() == JsonView::Array(custom_attribute_json_list(list.deep_view())),
{
    let mut out: Vec<JsonValue> = Vec::new();
    let mut i: usize = 0;
    while i < list.len()
        invariant
            i <= list@.len(),
            out@.len() == i,
            forall|j: int| 0 <= j < i ==> out@[j].deep_view() == custom_attribute_json(list@[j].deep_view()),
        decreases list.len() - i,
    {
        out.push(custom_attribute_to_json(&list[i]));
        i += 1;
    }
    proof {
        lemma_json_array(out);
        assert(out.deep_view() =~= custom_attribute_json_list(list.deep_view()));
    }
    JsonValue::Array(out)
}

fn custom_attribute_add_1(v: &CustomAttribute, m: &mut Vec<JsonMember>)
    ensures
        final(m).deep_view() == old(m).deep_view() + custom_attribute_members_1(v.deep_view()),
{
    let ghost start = m.deep_view();
    push_member(m, "content", JsonValue::String(v.content.clone()));
    assert(m.deep_view() =~= start + (
        seq![("content"@, JsonView::String(v.deep_view().content))]
    ));
    push_member(m, "raw", JsonValue::String(v.raw.clone()));
    assert(m.deep_view() =~= start + (
        seq![("content"@, JsonView::String(v.deep_view().content))]
        + seq![("raw"@, JsonView::String(v.deep_view().raw))]
    ));
    match &v.parsed {
        Some(x) => {
            push_member(m, "parsed", custom_attribute_parsed_to_json(x));
        },
        None => {},
    }
    assert(m.deep_view() =~= start + (
        seq![("content"@, JsonView::String(v.deep_view().content))]
        + seq![("raw"@, JsonView::String(v.deep_view().raw))]
        + opt_member(
            "parsed"@,
            match v.deep_view().parsed {
                Some(x) => Some(custom_attribute_parsed_json(x)),
                None => None,
            },
        )
    ));
}

/// Turns a [`CustomAttribute`] into JSON.
pub fn custom_attribute_to_json(v: &CustomAttribute) -> (r: JsonValue)
    ensures
        r.deep_view() == custom_attribute_json(v.deep_view()),
{
    let mut m: Vec<JsonMember> = Vec::new();
    proof {
        assert(m.deep_view() =~= Seq::empty());
    }
    custom_attribute_add_1(v, &mut m);
    proof {
        assert(m.deep_view() =~= custom_attribute_members(v.deep_view()));
    }
    object(m)
}

/// Part 1 of the members of the JSON form of a [`EnumValue`].
pub open spec fn enum_value_members_1(v: EnumValueView) -> Seq<(Seq<char>, JsonView)> {
    seq![("name"@, JsonView::String(v.name))]
        + opt_member(
            "description"@,
            match v.description {
                Some(x) => Some(JsonView::String(x)),
                None => None,
            },
        )
        + opt_member(
            "type"@,
            match v.value_type {
                Some(x) => Some(JsonView::String(x)),
                None => None,
            },
        )
        + opt_member(
            "value"@,
            match v.value {
                Some(x) => Some(x),
                None => None,
            },
        )
}

/// The members of the JSON form of a [`EnumValue`], in order. 
pub open spec fn enum_value_members(v: EnumValueView) -> Seq<(Seq<char>, JsonView)> {
    enum_value_members_1(v)
}

/// The JSON form of a [`EnumValue`].
pub open spec fn enum_value_json(v: EnumValueView) -> JsonView {
    JsonView::Object(enum_value_members(v))
}

/// The JSON forms of a list of [`EnumValue`].
pub open spec fn enum_value_json_list(list: Seq<EnumValueView>) -> Seq<JsonView> {
    Seq::new(list.len(), |i: int| enum_value_json(list[i]))
}

/// Turns a list of [`EnumValue`] into JSON.
pub fn enum_value_list_to_json(list: &Vec<EnumValue>) -> (r: JsonValue)
    ensures
        r.deep_view() == JsonView::Array(enum_value_json_list(list.deep_view())),
{
    let mut out: Vec<JsonValue> = Vec::new();
    let mut i: usize = 0;
    while i < list.len()
        invariant
            i <= list@.len(),
            out@.len() == i,
            forall|j: int| 0 <= j < i ==> out@[j].deep_view() == enum_value_json(list@[j].deep_view()),
        decreases list.len() - i,
    {
        out.push(enum_value_to_json(&list[i]));
        i += 1;
    }
    proof {
        lemma_json_array(out);
        assert(out.deep_view() =~= enum_value_json_list(list.deep_view()));
    }
    JsonValue::Array(out)
}

fn enum_value_add_1(v: &EnumValue, m: &mut Vec<JsonMember>)
    ensures
        final(m).deep_view() == old(m).deep_view() + enum_value_members_1(v.deep_view()),
{
    let ghost start = m.deep_view();
    push_member(m, "name", JsonValue::String(v.name.clone()));
    assert(m.deep_view() =~= start + (
        seq![("name"@, JsonView::String(v.deep_view().name))]
    ));
    match &v.description {
        Some(x) => {
            push_member(m, "description", JsonValue::String(x.clone()));
        },
        None => {},
    }
    assert(m.deep_view() =~= start + (
        seq![("name"@, JsonView::String(v.deep_view().name))]
        + opt_member(
            "description"@,
            match v.deep_view().description {
                Some(x) => Some(JsonView::String(x)),
                None => None,
            },
        )
    ));
    match &v.value_type {
        Some(x) => {
            push_member(m, "type", JsonValue::String(x.clone()));
        },
        None => {},
    }
    assert(m.deep_view() =~= start + (
        seq![("name"@, JsonView::String(v.deep_view().name))]
        + opt_member(
            "description"@,
            match v.deep_view().description {
                Some(x) => Some(JsonView::String(x)),
                None => None,
            },
        )
        + opt_member(
            "type"@,
            match v.deep_view().value_type {
                Some(x) => Some(JsonView::String(x)),
                None => None,
            },
        )
    ));
    match &v.value {
        Some(x) => {
            push_member(m, "value", clone_json(x));
        },
        None => {},
    }
    assert(m.deep_view() =~= start + (
        seq![("name"@, JsonView::String(v.deep_view().name))]
        + opt_member(
            "description"@,
            match v.deep_view().description {
                Some(x) => Some(JsonView::String(x)),
                None => None,
            },
        )
        + opt_member(
            "type"@,
            match v.deep_view().value_type {
                Some(x) => Some(JsonView::String(x)),
                None => None,
            },
        )
        + opt_member(
            "value"@,
            match v.deep_view().value {
                Some(x) => Some(x),
                None => None,
            },
        )
    ));
}

/// Turns a [`EnumValue`] into JSON.
pub fn enum_value_to_json(v: &EnumValue) -> (r: JsonValue)
    ensures
        r.deep_view() == enum_value_json(v.deep_view()),
{
    let mut m: Vec<JsonMember> = Vec::new();
    proof {
        assert(m.deep_view() =~= Seq::empty());
    }
    enum_value_add_1(v, &mut m);
    proof {
        assert(m.deep_view() =~= enum_value_members(v.deep_view()));
    }
    object(m)
}

/// Part 1 of the members of the JSON form of a [`LookupDef`].
pub open spec fn lookup_def_members_1(v: LookupDefView) -> Seq<(Seq<char>, JsonView)> {
    seq![("path"@, JsonView::String(v.path))]
}

/// The members of the JSON form of a [`LookupDef`], in order. 
pub open spec fn lookup_def_members(v: LookupDefView) -> Seq<(Seq<char>, JsonView)> {
    lookup_def_members_1(v)
}

/// The JSON form of a [`LookupDef`].
pub open spec fn lookup_def_json(v: LookupDefView) -> JsonView {
    JsonView::Object(lookup_def_members(v))
}

fn lookup_def_add_1(v: &LookupDef, m: &mut Vec<JsonMember>)
    ensures
        final(m).deep_view() == old(m).deep_view() + lookup_def_members_1(v.deep_view()),
{
    let ghost start = m.deep_view();
    push_member(m, "path", JsonValue::String(v.path.clone()));
    assert(m.deep_view() =~= start + (
        seq![("path"@, JsonView::String(v.deep_view().path))]
    ));
}

/// Turns a [`LookupDef`] into JSON.
pub fn lookup_def_to_json(v: &LookupDef) -> (r: JsonValue)
    ensures
        r.deep_view() == lookup_def_json(v.deep_view()),
{
    let mut m: Vec<JsonMember> = Vec::new();
    proof {
        assert(m.deep_view() =~= Seq::empty());
    }
    lookup_def_add_1(v, &mut m);
    proof {
        assert(m.deep_view() =~= lookup_def_members(v.deep_view()));
    }
    object(m)
}

/// Part 1 of the members of the JSON form of a [`RollupDef`].
pub open spec fn rollup_def_members_1(v: RollupDefView) -> Seq<(Seq<char>, JsonView)> {
    seq![("target"@, JsonView::String(v.target))]
        + seq![("fk"@, JsonView::String(v.fk))]
        + seq![("aggregate"@, JsonView::String(v.aggregate))]
        + opt_member(
            "field"@,
            match v.field {
                Some(x) => Some(JsonView::String(x)),
                None => None,
            },
        )
}

/// Part 2 of the members of the JSON form of a [`RollupDef`].
pub open spec fn rollup_def_members_2(v: RollupDefView) -> Seq<(Seq<char>, JsonView)> {
    opt_member(
        "where"@,
        match v.where_clause {
            Some(x) => Some(JsonView::String(x)),
            None => None,
        },
    )
}

/// The members of the JSON form of a [`RollupDef`], in order. 
pub open spec fn rollup_def_members(v: RollupDefView) -> Seq<(Seq<char>, JsonView)> {
    rollup_def_members_1(v)
        + rollup_def_members_2(v)
}

/// The JSON form of a [`RollupDef`].
pub open spec fn rollup_def_json(v: RollupDefView) -> JsonView {
    JsonView::Object(rollup_def_members(v))
}

fn rollup_def_add_1(v: &RollupDef, m: &mut Vec<JsonMember>)
    ensures
        final(m).deep_view() == old(m).deep_view() + rollup_def_members_1(v.deep_view()),
{
    let ghost start = m.deep_view();
    push_member(m, "target", JsonValue::String(v.target.clone()));
    assert(m.deep_view() =~= start + (
        seq![("target"@, JsonView::String(v.deep_view().target))]
    ));
    push_member(m, "fk", JsonValue::String(v.fk.clone()));
    assert(m.deep_view() =~= start + (
        seq![("target"@, JsonView::String(v.deep_view().target))]
        + seq![("fk"@, JsonView::String(v.deep_view().fk))]
    ));
    push_member(m, "aggregate", JsonValue::String(v.aggregate.clone()));
    assert(m.deep_view() =~= start + (
        seq![("target"@, JsonView::String(v.deep_view().target))]
        + seq![("fk"@, JsonView::String(v.deep_view().fk))]
        + seq![("aggregate"@, JsonView::String(v.deep_view().aggregate))]
    ));
    match &v.field {
        Some(x) => {
            push_member(m, "field", JsonValue::String(x.clone()));
        },
        None => {},
    }
    assert(m.deep_view() =~= start + (
        seq![("target"@, JsonView::String(v.deep_view().target))]
        + seq![("fk"@, JsonView::String(v.deep_view().fk))]
        + seq![("aggregate"@, JsonView::String(v.deep_view().aggregate))]
        + opt_member(
            "field"@,
            match v.deep_view().field {
                Some(x) => Some(JsonView::String(x)),
                None => None,
            },
        )
    ));
}

fn rollup_def_add_2(v: &RollupDef, m: &mut Vec<JsonMember>)
    ensures
        final(m).deep_view() == old(m).deep_view() + rollup_def_members_2(v.deep_view()),
{
    let ghost start = m.deep_view();
    match &v.where_clause {
        Some(x) => {
            push_member(m, "where", JsonValue::String(x.clone()));
        },
        None => {},
    }
    assert(m.deep_view() =~= start + (
        opt_member(
            "where"@,
            match v.deep_view().where_clause {
                Some(x) => Some(JsonView::String(x)),
                None => None,
            },
        )
    ));
}

/// Turns a [`RollupDef`] into JSON.
pub fn rollup_def_to_json(v: &RollupDef) -> (r: JsonValue)
    ensures
        r.deep_view() == rollup_def_json(v.deep_view()),
{
    let mut m: Vec<JsonMember> = Vec::new();
    proof {
        assert(m.deep_view() =~= Seq::empty());
    }
    rollup_def_add_1(v, &mut m);
    rollup_def_add_2(v, &mut m);
    proof {
        assert(m.deep_view() =~= rollup_def_members(v.deep_view()));
    }
    object(m)
}

/// Part 1 of the members of the JSON form of a [`ComputedDef`].
pub open spec fn computed_def_members_1(v: ComputedDefView) -> Seq<(Seq<char>, JsonView)> {
    seq![("expression"@, JsonView::String(v.expression))]
        + opt_member(
            "platform"@,
            match v.platform {
                Some(x) => Some(JsonView::String(x)),
                None => None,
            },
        )
}

/// The members of the JSON form of a [`ComputedDef`], in order. 
pub open spec fn computed_def_members(v: ComputedDefView) -> Seq<(Seq<char>, JsonView)> {
    computed_def_members_1(v)
}

/// The JSON form of a [`ComputedDef`].
pub open spec fn computed_def_json(v: ComputedDefView) -> JsonView {
    JsonView::Object(computed_def_members(v))
}

fn computed_def_add_1(v: &ComputedDef, m: &mut Vec<JsonMember>)
    ensures
        final(m).deep_view() == old(m).deep_view() + computed_def_members_1(v.deep_view()),
{
    let ghost start = m.deep_view();
    push_member(m, "expression", JsonValue::String(v.expression.clone()));
    assert(m.deep_view() =~= start + (
        seq![("expression"@, JsonView::String(v.deep_view().expression))]
    ));
    match &v.platform {
        Some(x) => {
            push_member(m, "platform", JsonValue::String(x.clone()));
        },
        None => {},
    }
    assert(m.deep_view() =~= start + (
        seq![("expression"@, JsonView::String(v.deep_view().expression))]
        + opt_member(
            "platform"@,
            match v.deep_view().platform {
                Some(x) => Some(JsonView::String(x)),
                None => None,
            },
        )
    ));
}

/// Turns a [`ComputedDef`] into JSON.
pub fn computed_def_to_json(v: &ComputedDef) -> (r: JsonValue)
    ensures
        r.deep_view() == computed_def_json(v.deep_view()),
{
    let mut m: Vec<JsonMember> = Vec::new();
    proof {
        assert(m.deep_view() =~= Seq::empty());
    }
    computed_def_add_1(v, &mut m);
    proof {
        assert(m.deep_view() =~= computed_def_members(v.deep_view()));
    }
    object(m)
}

/// Part 1 of the members of the JSON form of a [`FieldNode`].
pub open spec fn field_node_members_1(v: FieldNodeView) -> Seq<(Seq<char>, JsonView)>
    decreases v, 0nat,
{
    seq![("name"@, JsonView::String(v.name))]
        + opt_member(
            "label"@,
            match v.label {
                Some(x) => Some(JsonView::String(x)),
                None => None,
            },
        )
        + opt_member(
            "type"@,
            match v.field_type {
                Some(x) => Some(JsonView::String(x)),
                None => None,
            },
        )
        + opt_member(
            "params"@,
            match v.params {
                Some(x) => Some(JsonView::Array(param_json_list(x))),
                None => None,
            },
        )
}

/// Part 2 of the members of the JSON form of a [`FieldNode`].
pub open spec fn field_node_members_2(v: FieldNodeView) -> Seq<(Seq<char>, JsonView)>
    decreases v, 0nat,
{
    opt_member(
        "genericParams"@,
        match v.generic_params {
            Some(x) => Some(JsonView::Array(string_values(x))),
            None => None,
        },
    )
        + seq![("nullable"@, JsonView::Bool(v.nullable))]
        + seq![("array"@, JsonView::Bool(v.array))]
        + seq![("arrayItemNullable"@, JsonView::Bool(v.array_item_nullable))]
}

/// Part 3 of the members of the JSON form of a [`FieldNode`].
pub open spec fn field_node_members_3(v: FieldNodeView) -> Seq<(Seq<char>, JsonView)>
    decreases v, 0nat,
{
    seq![("kind"@, JsonView::String(kind_word(v.kind)))]
        + opt_member(
            "defaultValue"@,
            match v.default_value {
                Some(x) => Some(JsonView::String(x)),
                None => None,
            },
        )
        + opt_member(
            "defaultValueType"@,
            match v.default_value_type {
                Some(x) => Some(JsonView::String(default_type_word(x))),
                None => None,
            },
        )
        + opt_member(
            "description"@,
            match v.description {
                Some(x) => Some(JsonView::String(x)),
                None => None,
            },
        )
}

/// Part 4 of the members of the JSON form of a [`FieldNode`].
pub open spec fn field_node_members_4(v: FieldNodeView) -> Seq<(Seq<char>, JsonView)>
    decreases v, 0nat,
{
    seq![("attributes"@, JsonView::Array(field_attribute_json_list(v.attributes)))]
        + opt_member(
            "frameworkAttrs"@,
            match v.framework_attrs {
                Some(x) => Some(JsonView::Array(custom_attribute_json_list(x))),
                None => None,
            },
        )
        + opt_member(
            "lookup"@,
            match v.lookup {
                Some(x) => Some(lookup_def_json(x)),
                None => None,
            },
        )
        + opt_member(
            "rollup"@,
            match v.rollup {
                Some(x) => Some(rollup_def_json(x)),
                None => None,
            },
        )
}

/// Part 5 of the members of the JSON form of a [`FieldNode`].
pub open spec fn field_node_members_5(v: FieldNodeView) -> Seq<(Seq<char>, JsonView)>
    decreases v, 0nat,
{
    opt_member(
        "computed"@,
        match v.computed {
            Some(x) => Some(computed_def_json(x)),
            None => None,
        },
    )
        + opt_member(
            "enumValues"@,
            match v.enum_values {
                Some(x) => Some(JsonView::Array(enum_value_json_list(x))),
                None => None,
            },
        )
        + opt_member(
            "fields"@,
            match v.fields {
                Some(x) => Some(JsonView::Array(field_node_json_list(x))),
                None => None,
            },
        )
        + seq![("loc"@, source_location_json(v.loc))]
}

/// The members of the JSON form of a [`FieldNode`], in order. The keys
/// `name`, `nullable`, `array`, `arrayItemNullable`, `kind`, `attributes` and
/// `loc` are always there; the others stand only where they are set.
pub open spec fn field_node_members(v: FieldNodeView) -> Seq<(Seq<char>, JsonView)>
    decreases v, 1nat,
{
    field_node_members_1(v)
        + field_node_members_2(v)
        + field_node_members_3(v)
        + field_node_members_4(v)
        + field_node_members_5(v)
}

/// The JSON form of a [`FieldNode`].
pub open spec fn field_node_json(v: FieldNodeView) -> JsonView
    decreases v, 2nat,
{
    JsonView::Object(field_node_members(v))
}

/// The JSON forms of a list of [`FieldNode`].
pub open spec fn field_node_json_list(list: Seq<FieldNodeView>) -> Seq<JsonView>
    decreases list, 3nat,
{
    Seq::new(list.len(), |i: int| if 0 <= i < list.len() { field_node_json(list[i]) } else { arbitrary() })
}

/// Turns a list of [`FieldNode`] into JSON.
pub fn field_node_list_to_json(list: &Vec<FieldNode>) -> (r: JsonValue)
    ensures
        r.deep_view() == JsonView::Array(field_node_json_list(list.deep_view())),
    decreases list, 1nat,
{
    let mut out: Vec<JsonValue> = Vec::new();
    let mut i: usize = 0;
    while i < list.len()
        invariant
            i <= list@.len(),
            out@.len() == i,
            forall|j: int| 0 <= j < i ==> out@[j].deep_view() == field_node_json(list@[j].deep_view()),
        decreases list.len() - i,
    {
        out.push(field_node_to_json(&list[i]));
        i += 1;
    }
    proof {
        lemma_json_array(out);
        assert(out.deep_view() =~= field_node_json_list(list.deep_view()));
    }
    JsonValue::Array(out)
}

fn field_node_add_1(v: &FieldNode, m: &mut Vec<JsonMember>)
    ensures
        final(m).deep_view() == old(m).deep_view() + field_node_members_1(v.deep_view()),
    decreases v, 0nat,
{
    proof {
        if v.fields is Some {
            lemma_field_view_fields(v);
        }
    }
    let ghost start = m.deep_view();
    push_member(m, "name", JsonValue::String(v.name.clone()));
    assert(m.deep_view() =~= start + (
        seq![("name"@, JsonView::String(v.deep_view().name))]
    ));
    match &v.label {
        Some(x) => {
            push_member(m, "label", JsonValue::String(x.clone()));
        },
        None => {},
    }
    assert(m.deep_view() =~= start + (
        seq![("name"@, JsonView::String(v.deep_view().name))]
        + opt_member(
            "label"@,
            match v.deep_view().label {
                Some(x) => Some(JsonView::String(x)),
                None => None,
            },
        )
    ));
    match &v.field_type {
        Some(x) => {
            push_member(m, "type", JsonValue::String(x.clone()));
        },
        None => {},
    }
    assert(m.deep_view() =~= start + (
        seq![("name"@, JsonView::String(v.deep_view().name))]
        + opt_member(
            "label"@,
            match v.deep_view().label {
                Some(x) => Some(JsonView::String(x)),
                None => None,
            },
        )
        + opt_member(
            "type"@,
            match v.deep_view().field_type {
                Some(x) => Some(JsonView::String(x)),
                None => None,
            },
        )
    ));
    match &v.params {
        Some(x) => {
            push_member(m, "params", params_to_json(x));
        },
        None => {},
    }
    assert(m.deep_view() =~= start + (
        seq![("name"@, JsonView::String(v.deep_view().name))]
        + opt_member(
            "label"@,
            match v.deep_view().label {
                Some(x) => Some(JsonView::String(x)),
                None => None,
            },
        )
        + opt_member(
            "type"@,
            match v.deep_view().field_type {
                Some(x) => Some(JsonView::String(x)),
                None => None,
            },
        )
        + opt_member(
            "params"@,
            match v.deep_view().params {
                Some(x) => Some(JsonView::Array(param_json_list(x))),
                None => None,
            },
        )
    ));
}

fn field_node_add_2(v: &FieldNode, m: &mut Vec<JsonMember>)
    ensures
        final(m).deep_view() == old(m).deep_view() + field_node_members_2(v.deep_view()),
    decreases v, 0nat,
{
    proof {
        if v.fields is Some {
            lemma_field_view_fields(v);
        }
    }
    let ghost start = m.deep_view();
    match &v.generic_params {
        Some(x) => {
            push_member(m, "genericParams", strings_to_json(x));
        },
        None => {},
    }
    assert(m.deep_view() =~= start + (
        opt_member(
            "genericParams"@,
            match v.deep_view().generic_params {
                Some(x) => Some(JsonView::Array(string_values(x))),
                None => None,
            },
        )
    ));
    push_member(m, "nullable", JsonValue::Bool(v.nullable));
    assert(m.deep_view() =~= start + (
        opt_member(
            "genericParams"@,
            match v.deep_view().generic_params {
                Some(x) => Some(JsonView::Array(string_values(x))),
                None => None,
            },
        )
        + seq![("nullable"@, JsonView::Bool(v.deep_view().nullable))]
    ));
    push_member(m, "array", JsonValue::Bool(v.array));
    assert(m.deep_view() =~= start + (
        opt_member(
            "genericParams"@,
            match v.deep_view().generic_params {
                Some(x) => Some(JsonView::Array(string_values(x))),
                None => None,
            },
        )
        + seq![("nullable"@, JsonView::Bool(v.deep_view().nullable))]
        + seq![("array"@, JsonView::Bool(v.deep_view().array))]
    ));
    push_member(m, "arrayItemNullable", JsonValue::Bool(v.array_item_nullable));
    assert(m.deep_view() =~= start + (
        opt_member(
            "genericParams"@,
            match v.deep_view().generic_params {
                Some(x) => Some(JsonView::Array(string_values(x))),
                None => None,
            },
        )
        + seq![("nullable"@, JsonView::Bool(v.deep_view().nullable))]
        + seq![("array"@, JsonView::Bool(v.deep_view().array))]
        + seq![("arrayItemNullable"@, JsonView::Bool(v.deep_view().array_item_nullable))]
    ));
}

fn field_node_add_3(v: &FieldNode, m: &mut Vec<JsonMember>)
    ensures
        final(m).deep_view() == old(m).deep_view() + field_node_members_3(v.deep_view()),
    decreases v, 0nat,
{
    proof {
        if v.fields is Some {
            lemma_field_view_fields(v);
        }
    }
    let ghost start = m.deep_view();
    push_member(m, "kind", text_json(kind_text(v.kind)));
    assert(m.deep_view() =~= start + (
        seq![("kind"@, JsonView::String(kind_word(v.deep_view().kind)))]
    ));
    match &v.default_value {
        Some(x) => {
            push_member(m, "defaultValue", JsonValue::String(x.clone()));
        },
        None => {},
    }
    assert(m.deep_view() =~= start + (
        seq![("kind"@, JsonView::String(kind_word(v.deep_view().kind)))]
        + opt_member(
            "defaultValue"@,
            match v.deep_view().default_value {
                Some(x) => Some(JsonView::String(x)),
                None => None,
            },
        )
    ));
    match &v.default_value_type {
        Some(x) => {
            push_member(m, "defaultValueType", text_json(default_type_text(*x)));
        },
        None => {},
    }
    assert(m.deep_view() =~= start + (
        seq![("kind"@, JsonView::String(kind_word(v.deep_view().kind)))]
        + opt_member(
            "defaultValue"@,
            match v.deep_view().default_value {
                Some(x) => Some(JsonView::String(x)),
                None => None,
            },
        )
        + opt_member(
            "defaultValueType"@,
            match v.deep_view().default_value_type {
                Some(x) => Some(JsonView::String(default_type_word(x))),
                None => None,
            },
        )
    ));
    match &v.description {
        Some(x) => {
            push_member(m, "description", JsonValue::String(x.clone()));
        },
        None => {},
    }
    assert(m.deep_view() =~= start + (
        seq![("kind"@, JsonView::String(kind_word(v.deep_view().kind)))]
        + opt_member(
            "defaultValue"@,
            match v.deep_view().default_value {
                Some(x) => Some(JsonView::String(x)),
                None => None,
            },
        )
        + opt_member(
            "defaultValueType"@,
            match v.deep_view().default_value_type {
                Some(x) => Some(JsonView::String(default_type_word(x))),
                None => None,
            },
        )
        + opt_member(
            "description"@,
            match v.deep_view().description {
                Some(x) => Some(JsonView::String(x)),
                None => None,
            },
        )
    ));
}

fn field_node_add_4(v: &FieldNode, m: &mut Vec<JsonMember>)
    ensures
        final(m).deep_view() == old(m).deep_view() + field_node_members_4(v.deep_view()),
    decreases v, 0nat,
{
    proof {
        if v.fields is Some {
            lemma_field_view_fields(v);
        }
    }
    let ghost start = m.deep_view();
    push_member(m, "attributes", field_attribute_list_to_json(&v.attributes));
    assert(m.deep_view() =~= start + (
        seq![
            ("attributes"@, JsonView::Array(field_attribute_json_list(v.deep_view().attributes))),
        ]
    ));
    match &v.framework_attrs {
        Some(x) => {
            push_member(m, "frameworkAttrs", custom_attribute_list_to_json(x));
        },
        None => {},
    }
    assert(m.deep_view() =~= start + (
        seq![
            ("attributes"@, JsonView::Array(field_attribute_json_list(v.deep_view().attributes))),
        ]
        + opt_member(
            "frameworkAttrs"@,
            match v.deep_view().framework_attrs {
                Some(x) => Some(JsonView::Array(custom_attribute_json_list(x))),
                None => None,
            },
        )
    ));
    match &v.lookup {
        Some(x) => {
            push_member(m, "lookup", lookup_def_to_json(x));
        },
        None => {},
    }
    assert(m.deep_view() =~= start + (
        seq![
            ("attributes"@, JsonView::Array(field_attribute_json_list(v.deep_view().attributes))),
        ]
        + opt_member(
            "frameworkAttrs"@,
            match v.deep_view().framework_attrs {
                Some(x) => Some(JsonView::Array(custom_attribute_json_list(x))),
                None => None,
            },
        )
        + opt_member(
            "lookup"@,
            match v.deep_view().lookup {
                Some(x) => Some(lookup_def_json(x)),
                None => None,
            },
        )
    ));
    match &v.rollup {
        Some(x) => {
            push_member(m, "rollup", rollup_def_to_json(x));
        },
        None => {},
    }
    assert(m.deep_view() =~= start + (
        seq![
            ("attributes"@, JsonView::Array(field_attribute_json_list(v.deep_view().attributes))),
        ]
        + opt_member(
            "frameworkAttrs"@,
            match v.deep_view().framework_attrs {
                Some(x) => Some(JsonView::Array(custom_attribute_json_list(x))),
                None => None,
            },
        )
        + opt_member(
            "lookup"@,
            match v.deep_view().lookup {
                Some(x) => Some(lookup_def_json(x)),
                None => None,
            },
        )
        + opt_member(
            "rollup"@,
            match v.deep_view().rollup {
                Some(x) => Some(rollup_def_json(x)),
                None => None,
            },
        )
    ));
}

fn field_node_add_5(v: &FieldNode, m: &mut Vec<JsonMember>)
    ensures
        final(m).deep_view() == old(m).deep_view() + field_node_members_5(v.deep_view()),
    decreases v, 0nat,
{
    proof {
        if v.fields is Some {
            lemma_field_view_fields(v);
        }
    }
    let ghost start = m.deep_view();
    match &v.computed {
        Some(x) => {
            push_member(m, "computed", computed_def_to_json(x));
        },
        None => {},
    }
    assert(m.deep_view() =~= start + (
        opt_member(
            "computed"@,
            match v.deep_view().computed {
                Some(x) => Some(computed_def_json(x)),
                None => None,
            },
        )
    ));
    match &v.enum_values {
        Some(x) => {
            push_member(m, "enumValues", enum_value_list_to_json(x));
        },
        None => {},
    }
    assert(m.deep_view() =~= start + (
        opt_member(
            "computed"@,
            match v.deep_view().computed {
                Some(x) => Some(computed_def_json(x)),
                None => None,
            },
        )
        + opt_member(
            "enumValues"@,
            match v.deep_view().enum_values {
                Some(x) => Some(JsonView::Array(enum_value_json_list(x))),
                None => None,
            },
        )
    ));
    match &v.fields {
        Some(x) => {
            push_member(m, "fields", field_node_list_to_json(x));
        },
        None => {},
    }
    assert(m.deep_view() =~= start + (
        opt_member(
            "computed"@,
            match v.deep_view().computed {
                Some(x) => Some(computed_def_json(x)),
                None => None,
            },
        )
        + opt_member(
            "enumValues"@,
            match v.deep_view().enum_values {
                Some(x) => Some(JsonView::Array(enum_value_json_list(x))),
                None => None,
            },
        )
        + opt_member(
            "fields"@,
            match v.deep_view().fields {
                Some(x) => Some(JsonView::Array(field_node_json_list(x))),
                None => None,
            },
        )
    ));
    push_member(m, "loc", source_location_to_json(&v.loc));
    assert(m.deep_view() =~= start + (
        opt_member(
            "computed"@,
            match v.deep_view().computed {
                Some(x) => Some(computed_def_json(x)),
                None => None,
            },
        )
        + opt_member(
            "enumValues"@,
            match v.deep_view().enum_values {
                Some(x) => Some(JsonView::Array(enum_value_json_list(x))),
                None => None,
            },
        )
        + opt_member(
            "fields"@,
            match v.deep_view().fields {
                Some(x) => Some(JsonView::Array(field_node_json_list(x))),
                None => None,
            },
        )
        + seq![("loc"@, source_location_json(v.deep_view().loc))]
    ));
}

/// Turns a [`FieldNode`] into JSON.
pub fn field_node_to_json(v: &FieldNode) -> (r: JsonValue)
    ensures
        r.deep_view() == field_node_json(v.deep_view()),
    decreases v, 1nat,
{
    let mut m: Vec<JsonMember> = Vec::new();
    proof {
        assert(m.deep_view() =~= Seq::empty());
    }
    field_node_add_1(v, &mut m);
    field_node_add_2(v, &mut m);
    field_node_add_3(v, &mut m);
    field_node_add_4(v, &mut m);
    field_node_add_5(v, &mut m);
    proof {
        assert(m.deep_view() =~= field_node_members(v.deep_view()));
    }
    object(m)
}

/// Part 1 of the members of the JSON form of a [`JoinDef`].
pub open spec fn join_def_members_1(v: JoinDefView) -> Seq<(Seq<char>, JsonView)> {
    seq![("model"@, JsonView::String(v.model))]
        + seq![("on"@, JsonView::String(v.on))]
}

/// The members of the JSON form of a [`JoinDef`], in order. 
pub open spec fn join_def_members(v: JoinDefView) -> Seq<(Seq<char>, JsonView)> {
    join_def_members_1(v)
}

/// The JSON form of a [`JoinDef`].
pub open spec fn join_def_json(v: JoinDefView) -> JsonView {
    JsonView::Object(join_def_members(v))
}

/// The JSON forms of a list of [`JoinDef`].
pub open spec fn join_def_json_list(list: Seq<JoinDefView>) -> Seq<JsonView> {
    Seq::new(list.len(), |i: int| join_def_json(list[i]))
}

/// Turns a list of [`JoinDef`] into JSON.
pub fn join_def_list_to_json(list: &Vec<JoinDef>) -> (r: JsonValue)
    ensures
        r.deep_view() == JsonView::Array(join_def_json_list(list.deep_view())),
{
    let mut out: Vec<JsonValue> = Vec::new();
    let mut i: usize = 0;
    while i < list.len()
        invariant
            i <= list@.len(),
            out@.len() == i,
            forall|j: int| 0 <= j < i ==> out@[j].deep_view() == join_def_json(list@[j].deep_view()),
        decreases list.len() - i,
    {
        out.push(join_def_to_json(&list[i]));
        i += 1;
    }
    proof {
        lemma_json_array(out);
        assert(out.deep_view() =~= join_def_json_list(list.deep_view()));
    }
    JsonValue::Array(out)
}

fn join_def_add_1(v: &JoinDef, m: &mut Vec<JsonMember>)
    ensures
        final(m).deep_view() == old(m).deep_view() + join_def_members_1(v.deep_view()),
{
    let ghost start = m.deep_view();
    push_member(m, "model", JsonValue::String(v.model.clone()));
    assert(m.deep_view() =~= start + (
        seq![("model"@, JsonView::String(v.deep_view().model))]
    ));
    push_member(m, "on", JsonValue::String(v.on.clone()));
    assert(m.deep_view() =~= start + (
        seq![("model"@, JsonView::String(v.deep_view().model))]
        + seq![("on"@, JsonView::String(v.deep_view().on))]
    ));
}

/// Turns a [`JoinDef`] into JSON.
pub fn join_def_to_json(v: &JoinDef) -> (r: JsonValue)
    ensures
        r.deep_view() == join_def_json(v.deep_view()),
{
    let mut m: Vec<JsonMember> = Vec::new();
    proof {
        assert(m.deep_view() =~= Seq::empty());
    }
    join_def_add_1(v, &mut m);
    proof {
        assert(m.deep_view() =~= join_def_members(v.deep_view()));
    }
    object(m)
}

/// Part 1 of the members of the JSON form of a [`ViewSourceDef`].
pub open spec fn view_source_def_members_1(v: ViewSourceDefView) -> Seq<(Seq<char>, JsonView)> {
    opt_member(
        "from"@,
        match v.from {
            Some(x) => Some(JsonView::String(x)),
            None => None,
        },
    )
        + opt_member(
            "joins"@,
            match v.joins {
                Some(x) => Some(JsonView::Array(join_def_json_list(x))),
                None => None,
            },
        )
        + opt_member(
            "where"@,
            match v.where_clause {
                Some(x) => Some(JsonView::String(x)),
                None => None,
            },
        )
        + opt_member(
            "orderBy"@,
            match v.order_by {
                Some(x) => Some(JsonView::String(x)),
                None => None,
            },
        )
}

/// Part 2 of the members of the JSON form of a [`ViewSourceDef`].
pub open spec fn view_source_def_members_2(v: ViewSourceDefView) -> Seq<(Seq<char>, JsonView)> {
    opt_member(
        "groupBy"@,
        match v.group_by {
            Some(x) => Some(JsonView::Array(string_values(x))),
            None => None,
        },
    )
        + opt_member(
            "rawSql"@,
            match v.raw_sql {
                Some(x) => Some(JsonView::String(x)),
                None => None,
            },
        )
        + opt_member(
            "languageHint"@,
            match v.language_hint {
                Some(x) => Some(JsonView::String(x)),
                None => None,
            },
        )
}

/// The members of the JSON form of a [`ViewSourceDef`], in order. 
pub open spec fn view_source_def_members(v: ViewSourceDefView) -> Seq<(Seq<char>, JsonView)> {
    view_source_def_members_1(v)
        + view_source_def_members_2(v)
}

/// The JSON form of a [`ViewSourceDef`].
pub open spec fn view_source_def_json(v: ViewSourceDefView) -> JsonView {
    JsonView::Object(view_source_def_members(v))
}

fn view_source_def_add_1(v: &ViewSourceDef, m: &mut Vec<JsonMember>)
    ensures
        final(m).deep_view() == old(m).deep_view() + view_source_def_members_1(v.deep_view()),
{
    let ghost start = m.deep_view();
    match &v.from {
        Some(x) => {
            push_member(m, "from", JsonValue::String(x.clone()));
        },
        None => {},
    }
    assert(m.deep_view() =~= start + (
        opt_member(
            "from"@,
            match v.deep_view().from {
                Some(x) => Some(JsonView::String(x)),
                None => None,
            },
        )
    ));
    match &v.joins {
        Some(x) => {
            push_member(m, "joins", join_def_list_to_json(x));
        },
        None => {},
    }
    assert(m.deep_view() =~= start + (
        opt_member(
            "from"@,
            match v.deep_view().from {
                Some(x) => Some(JsonView::String(x)),
                None => None,
            },
        )
        + opt_member(
            "joins"@,
            match v.deep_view().joins {
                Some(x) => Some(JsonView::Array(join_def_json_list(x))),
                None => None,
            },
        )
    ));
    match &v.where_clause {
        Some(x) => {
            push_member(m, "where", JsonValue::String(x.clone()));
        },
        None => {},
    }
    assert(m.deep_view() =~= start + (
        opt_member(
            "from"@,
            match v.deep_view().from {
                Some(x) => Some(JsonView::String(x)),
                None => None,
            },
        )
        + opt_member(
            "joins"@,
            match v.deep_view().joins {
                Some(x) => Some(JsonView::Array(join_def_json_list(x))),
                None => None,
            },
        )
        + opt_member(
            "where"@,
            match v.deep_view().where_clause {
                Some(x) => Some(JsonView::String(x)),
                None => None,
            },
        )
    ));
    match &v.order_by {
        Some(x) => {
            push_member(m, "orderBy", JsonValue::String(x.clone()));
        },
        None => {},
    }
    assert(m.deep_view() =~= start + (
        opt_member(
            "from"@,
            match v.deep_view().from {
                Some(x) => Some(JsonView::String(x)),
                None => None,
            },
        )
        + opt_member(
            "joins"@,
            match v.deep_view().joins {
                Some(x) => Some(JsonView::Array(join_def_json_list(x))),
                None => None,
            },
        )
        + opt_member(
            "where"@,
            match v.deep_view().where_clause {
                Some(x) => Some(JsonView::String(x)),
                None => None,
            },
        )
        + opt_member(
            "orderBy"@,
            match v.deep_view().order_by {
                Some(x) => Some(JsonView::String(x)),
                None => None,
            },
        )
    ));
}

fn view_source_def_add_2(v: &ViewSourceDef, m: &mut Vec<JsonMember>)
    ensures
        final(m).deep_view() == old(m).deep_view() + view_source_def_members_2(v.deep_view()),
{
    let ghost start = m.deep_view();
    match &v.group_by {
        Some(x) => {
            push_member(m, "groupBy", strings_to_json(x));
        },
        None => {},
    }
    assert(m.deep_view() =~= start + (
        opt_member(
            "groupBy"@,
            match v.deep_view().group_by {
                Some(x) => Some(JsonView::Array(string_values(x))),
                None => None,
            },
        )
    ));
    match &v.raw_sql {
        Some(x) => {
            push_member(m, "rawSql", JsonValue::String(x.clone()));
        },
        None => {},
    }
    assert(m.deep_view() =~= start + (
        opt_member(
            "groupBy"@,
            match v.deep_view().group_by {
                Some(x) => Some(JsonView::Array(string_values(x))),
                None => None,
            },
        )
        + opt_member(
            "rawSql"@,
            match v.deep_view().raw_sql {
                Some(x) => Some(JsonView::String(x)),
                None => None,
            },
        )
    ));
    match &v.language_hint {
        Some(x) => {
            push_member(m, "languageHint", JsonValue::String(x.clone()));
        },
        None => {},
    }
    assert(m.deep_view() =~= start + (
        opt_member(
            "groupBy"@,
            match v.deep_view().group_by {
                Some(x) => Some(JsonView::Array(string_values(x))),
                None => None,
            },
        )
        + opt_member(
            "rawSql"@,
            match v.deep_view().raw_sql {
                Some(x) => Some(JsonView::String(x)),
                None => None,
            },
        )
        + opt_member(
            "languageHint"@,
            match v.deep_view().language_hint {
                Some(x) => Some(JsonView::String(x)),
                None => None,
            },
        )
    ));
}

/// Turns a [`ViewSourceDef`] into JSON.
pub fn view_source_def_to_json(v: &ViewSourceDef) -> (r: JsonValue)
    ensures
        r.deep_view() == view_source_def_json(v.deep_view()),
{
    let mut m: Vec<JsonMember> = Vec::new();
    proof {
        assert(m.deep_view() =~= Seq::empty());
    }
    view_source_def_add_1(v, &mut m);
    view_source_def_add_2(v, &mut m);
    proof {
        assert(m.deep_view() =~= view_source_def_members(v.deep_view()));
    }
    object(m)
}

/// Part 1 of the members of the JSON form of a [`RefreshDef`].
pub open spec fn refresh_def_members_1(v: RefreshDefView) -> Seq<(Seq<char>, JsonView)> {
    seq![("strategy"@, JsonView::String(v.strategy))]
        + opt_member(
            "interval"@,
            match v.interval {
                Some(x) => Some(JsonView::String(x)),
                None => None,
            },
        )
}

/// The members of the JSON form of a [`RefreshDef`], in order. 
pub open spec fn refresh_def_members(v: RefreshDefView) -> Seq<(Seq<char>, JsonView)> {
    refresh_def_members_1(v)
}

/// The JSON form of a [`RefreshDef`].
pub open spec fn refresh_def_json(v: RefreshDefView) -> JsonView {
    JsonView::Object(refresh_def_members(v))
}

fn refresh_def_add_1(v: &RefreshDef, m: &mut Vec<JsonMember>)
    ensures
        final(m).deep_view() == old(m).deep_view() + refresh_def_members_1(v.deep_view()),
{
    let ghost start = m.deep_view();
    push_member(m, "strategy", JsonValue::String(v.strategy.clone()));
    assert(m.deep_view() =~= start + (
        seq![("strategy"@, JsonView::String(v.deep_view().strategy))]
    ));
    match &v.interval {
        Some(x) => {
            push_member(m, "interval", JsonValue::String(x.clone()));
        },
        None => {},
    }
    assert(m.deep_view() =~= start + (
        seq![("strategy"@, JsonView::String(v.deep_view().strategy))]
        + opt_member(
            "interval"@,
            match v.deep_view().interval {
                Some(x) => Some(JsonView::String(x)),
                None => None,
            },
        )
    ));
}

/// Turns a [`RefreshDef`] into JSON.
pub fn refresh_def_to_json(v: &RefreshDef) -> (r: JsonValue)
    ensures
        r.deep_view() == refresh_def_json(v.deep_view()),
{
    let mut m: Vec<JsonMember> = Vec::new();
    proof {
        assert(m.deep_view() =~= Seq::empty());
    }
    refresh_def_add_1(v, &mut m);
    proof {
        assert(m.deep_view() =~= refresh_def_members(v.deep_view()));
    }
    object(m)
}

/// Part 1 of the members of the JSON form of a [`ModelNode`].
pub open spec fn model_node_members_1(v: ModelNodeView) -> Seq<(Seq<char>, JsonView)> {
    seq![("name"@, JsonView::String(v.name))]
        + opt_member(
            "label"@,
            match v.label {
                Some(x) => Some(JsonView::String(x)),
                None => None,
            },
        )
        + seq![("type"@, JsonView::String(type_word(v.model_type)))]
        + seq![("source"@, JsonView::String(v.source))]
}

/// Part 2 of the members of the JSON form of a [`ModelNode`].
pub open spec fn model_node_members_2(v: ModelNodeView) -> Seq<(Seq<char>, JsonView)> {
    seq![("line"@, JsonView::Int(v.line as int))]
        + seq![("inherits"@, JsonView::Array(string_values(v.inherits)))]
        + opt_member(
            "description"@,
            match v.description {
                Some(x) => Some(JsonView::String(x)),
                None => None,
            },
        )
        + seq![("attributes"@, JsonView::Array(field_attribute_json_list(v.attributes)))]
}

/// Part 3 of the members of the JSON form of a [`ModelNode`].
pub open spec fn model_node_members_3(v: ModelNodeView) -> Seq<(Seq<char>, JsonView)> {
    seq![("fields"@, JsonView::Array(field_node_json_list(v.fields)))]
        + seq![("sections"@, sections_json(v.sections))]
        + opt_member(
            "materialized"@,
            match v.materialized {
                Some(x) => Some(JsonView::Bool(x)),
                None => None,
            },
        )
        + opt_member(
            "sourceDef"@,
            match v.source_def {
                Some(x) => Some(view_source_def_json(x)),
                None => None,
            },
        )
}

/// Part 4 of the members of the JSON form of a [`ModelNode`].
pub open spec fn model_node_members_4(v: ModelNodeView) -> Seq<(Seq<char>, JsonView)> {
    opt_member(
        "refresh"@,
        match v.refresh {
            Some(x) => Some(refresh_def_json(x)),
            None => None,
        },
    )
        + seq![("loc"@, source_location_json(v.loc))]
}

/// The members of the JSON form of a [`ModelNode`], in order. 
pub open spec fn model_node_members(v: ModelNodeView) -> Seq<(Seq<char>, JsonView)> {
    model_node_members_1(v)
        + model_node_members_2(v)
        + model_node_members_3(v)
        + model_node_members_4(v)
}

/// The JSON form of a [`ModelNode`].
pub open spec fn model_node_json(v: ModelNodeView) -> JsonView {
    JsonView::Object(model_node_members(v))
}

/// The JSON forms of a list of [`ModelNode`].
pub open spec fn model_node_json_list(list: Seq<ModelNodeView>) -> Seq<JsonView> {
    Seq::new(list.len(), |i: int| model_node_json(list[i]))
}

/// Turns a list of [`ModelNode`] into JSON.
pub fn model_node_list_to_json(list: &Vec<ModelNode>) -> (r: JsonValue)
    ensures
        r.deep_view() == JsonView::Array(model_node_json_list(list.deep_view())),
{
    let mut out: Vec<JsonValue> = Vec::new();
    let mut i: usize = 0;
    while i < list.len()
        invariant
            i <= list@.len(),
            out@.len() == i,
            forall|j: int| 0 <= j < i ==> out@[j].deep_view() == model_node_json(list@[j].deep_view()),
        decreases list.len() - i,
    {
        out.push(model_node_to_json(&list[i]));
        i += 1;
    }
    proof {
        lemma_json_array(out);
        assert(out.deep_view() =~= model_node_json_list(list.deep_view()));
    }
    JsonValue::Array(out)
}

fn model_node_add_1(v: &ModelNode, m: &mut Vec<JsonMember>)
    ensures
        final(m).deep_view() == old(m).deep_view() + model_node_members_1(v.deep_view()),
{
    let ghost start = m.deep_view();
    push_member(m, "name", JsonValue::String(v.name.clone()));
    assert(m.deep_view() =~= start + (
        seq![("name"@, JsonView::String(v.deep_view().name))]
    ));
    match &v.label {
        Some(x) => {
            push_member(m, "label", JsonValue::String(x.clone()));
        },
        None => {},
    }
    assert(m.deep_view() =~= start + (
        seq![("name"@, JsonView::String(v.deep_view().name))]
        + opt_member(
            "label"@,
            match v.deep_view().label {
                Some(x) => Some(JsonView::String(x)),
                None => None,
            },
        )
    ));
    push_member(m, "type", text_json(model_type_word(v.model_type)));
    assert(m.deep_view() =~= start + (
        seq![("name"@, JsonView::String(v.deep_view().name))]
        + opt_member(
            "label"@,
            match v.deep_view().label {
                Some(x) => Some(JsonView::String(x)),
                None => None,
            },
        )
        + seq![("type"@, JsonView::String(type_word(v.deep_view().model_type)))]
    ));
    push_member(m, "source", JsonValue::String(v.source.clone()));
    assert(m.deep_view() =~= start + (
        seq![("name"@, JsonView::String(v.deep_view().name))]
        + opt_member(
            "label"@,
            match v.deep_view().label {
                Some(x) => Some(JsonView::String(x)),
                None => None,
            },
        )
        + seq![("type"@, JsonView::String(type_word(v.deep_view().model_type)))]
        + seq![("source"@, JsonView::String(v.deep_view().source))]
    ));
}

fn model_node_add_2(v: &ModelNode, m: &mut Vec<JsonMember>)
    ensures
        final(m).deep_view() == old(m).deep_view() + model_node_members_2(v.deep_view()),
{
    let ghost start = m.deep_view();
    push_member(m, "line", JsonValue::UInt(v.line as u64));
    assert(m.deep_view() =~= start + (
        seq![("line"@, JsonView::Int(v.deep_view().line as int))]
    ));
    push_member(m, "inherits", strings_to_json(&v.inherits));
    assert(m.deep_view() =~= start + (
        seq![("line"@, JsonView::Int(v.deep_view().line as int))]
        + seq![("inherits"@, JsonView::Array(string_values(v.deep_view().inherits)))]
    ));
    match &v.description {
        Some(x) => {
            push_member(m, "description", JsonValue::String(x.clone()));
        },
        None => {},
    }
    assert(m.deep_view() =~= start + (
        seq![("line"@, JsonView::Int(v.deep_view().line as int))]
        + seq![("inherits"@, JsonView::Array(string_values(v.deep_view().inherits)))]
        + opt_member(
            "description"@,
            match v.deep_view().description {
                Some(x) => Some(JsonView::String(x)),
                None => None,
            },
        )
    ));
    push_member(m, "attributes", field_attribute_list_to_json(&v.attributes));
    assert(m.deep_view() =~= start + (
        seq![("line"@, JsonView::Int(v.deep_view().line as int))]
        + seq![("inherits"@, JsonView::Array(string_values(v.deep_view().inherits)))]
        + opt_member(
            "description"@,
            match v.deep_view().description {
                Some(x) => Some(JsonView::String(x)),
                None => None,
            },
        )
        + seq![
            ("attributes"@, JsonView::Array(field_attribute_json_list(v.deep_view().attributes))),
        ]
    ));
}

fn model_node_add_3(v: &ModelNode, m: &mut Vec<JsonMember>)
    ensures
        final(m).deep_view() == old(m).deep_view() + model_node_members_3(v.deep_view()),
{
    let ghost start = m.deep_view();
    push_member(m, "fields", field_node_list_to_json(&v.fields));
    assert(m.deep_view() =~= start + (
        seq![("fields"@, JsonView::Array(field_node_json_list(v.deep_view().fields)))]
    ));
    push_member(m, "sections", sections_to_json(&v.sections));
    assert(m.deep_view() =~= start + (
        seq![("fields"@, JsonView::Array(field_node_json_list(v.deep_view().fields)))]
        + seq![("sections"@, sections_json(v.deep_view().sections))]
    ));
    match &v.materialized {
        Some(x) => {
            push_member(m, "materialized", JsonValue::Bool(*x));
        },
        None => {},
    }
    assert(m.deep_view() =~= start + (
        seq![("fields"@, JsonView::Array(field_node_json_list(v.deep_view().fields)))]
        + seq![("sections"@, sections_json(v.deep_view().sections))]
        + opt_member(
            "materialized"@,
            match v.deep_view().materialized {
                Some(x) => Some(JsonView::Bool(x)),
                None => None,
            },
        )
    ));
    match &v.source_def {
        Some(x) => {
            push_member(m, "sourceDef", view_source_def_to_json(x));
        },
        None => {},
    }
    assert(m.deep_view() =~= start + (
        seq![("fields"@, JsonView::Array(field_node_json_list(v.deep_view().fields)))]
        + seq![("sections"@, sections_json(v.deep_view().sections))]
        + opt_member(
            "materialized"@,
            match v.deep_view().materialized {
                Some(x) => Some(JsonView::Bool(x)),
                None => None,
            },
        )
        + opt_member(
            "sourceDef"@,
            match v.deep_view().source_def {
                Some(x) => Some(view_source_def_json(x)),
                None => None,
            },
        )
    ));
}

fn model_node_add_4(v: &ModelNode, m: &mut Vec<JsonMember>)
    ensures
        final(m).deep_view() == old(m).deep_view() + model_node_members_4(v.deep_view()),
{
    let ghost start = m.deep_view();
    match &v.refresh {
        Some(x) => {
            push_member(m, "refresh", refresh_def_to_json(x));
        },
        None => {},
    }
    assert(m.deep_view() =~= start + (
        opt_member(
            "refresh"@,
            match v.deep_view().refresh {
                Some(x) => Some(refresh_def_json(x)),
                None => None,
            },
        )
    ));
    push_member(m, "loc", source_location_to_json(&v.loc));
    assert(m.deep_view() =~= start + (
        opt_member(
            "refresh"@,
            match v.deep_view().refresh {
                Some(x) => Some(refresh_def_json(x)),
                None => None,
            },
        )
        + seq![("loc"@, source_location_json(v.deep_view().loc))]
    ));
}

/// Turns a [`ModelNode`] into JSON.
pub fn model_node_to_json(v: &ModelNode) -> (r: JsonValue)
    ensures
        r.deep_view() == model_node_json(v.deep_view()),
{
    let mut m: Vec<JsonMember> = Vec::new();
    proof {
        assert(m.deep_view() =~= Seq::empty());
    }
    model_node_add_1(v, &mut m);
    model_node_add_2(v, &mut m);
    model_node_add_3(v, &mut m);
    model_node_add_4(v, &mut m);
    proof {
        assert(m.deep_view() =~= model_node_members(v.deep_view()));
    }
    object(m)
}

/// Part 1 of the members of the JSON form of a [`EnumNode`].
pub open spec fn enum_node_members_1(v: EnumNodeView) -> Seq<(Seq<char>, JsonView)> {
    seq![("name"@, JsonView::String(v.name))]
        + opt_member(
            "label"@,
            match v.label {
                Some(x) => Some(JsonView::String(x)),
                None => None,
            },
        )
        + seq![("type"@, JsonView::String(type_word(v.enum_type)))]
        + seq![("source"@, JsonView::String(v.source))]
}

/// Part 2 of the members of the JSON form of a [`EnumNode`].
pub open spec fn enum_node_members_2(v: EnumNodeView) -> Seq<(Seq<char>, JsonView)> {
    seq![("line"@, JsonView::Int(v.line as int))]
        + seq![("inherits"@, JsonView::Array(string_values(v.inherits)))]
        + opt_member(
            "description"@,
            match v.description {
                Some(x) => Some(JsonView::String(x)),
                None => None,
            },
        )
        + seq![("values"@, JsonView::Array(enum_value_json_list(v.values)))]
}

/// Part 3 of the members of the JSON form of a [`EnumNode`].
pub open spec fn enum_node_members_3(v: EnumNodeView) -> Seq<(Seq<char>, JsonView)> {
    seq![("loc"@, source_location_json(v.loc))]
}

/// The members of the JSON form of a [`EnumNode`], in order. 
pub open spec fn enum_node_members(v: EnumNodeView) -> Seq<(Seq<char>, JsonView)> {
    enum_node_members_1(v)
        + enum_node_members_2(v)
        + enum_node_members_3(v)
}

/// The JSON form of a [`EnumNode`].
pub open spec fn enum_node_json(v: EnumNodeView) -> JsonView {
    JsonView::Object(enum_node_members(v))
}

/// The JSON forms of a list of [`EnumNode`].
pub open spec fn enum_node_json_list(list: Seq<EnumNodeView>) -> Seq<JsonView> {
    Seq::new(list.len(), |i: int| enum_node_json(list[i]))
}

/// Turns a list of [`EnumNode`] into JSON.
pub fn enum_node_list_to_json(list: &Vec<EnumNode>) -> (r: JsonValue)
    ensures
        r.deep_view() == JsonView::Array(enum_node_json_list(list.deep_view())),
{
    let mut out: Vec<JsonValue> = Vec::new();
    let mut i: usize = 0;
    while i < list.len()
        invariant
            i <= list@.len(),
            out@.len() == i,
            forall|j: int| 0 <= j < i ==> out@[j].deep_view() == enum_node_json(list@[j].deep_view()),
        decreases list.len() - i,
    {
        out.push(enum_node_to_json(&list[i]));
        i += 1;
    }
    proof {
        lemma_json_array(out);
        assert(out.deep_view() =~= enum_node_json_list(list.deep_view()));
    }
    JsonValue::Array(out)
}

fn enum_node_add_1(v: &EnumNode, m: &mut Vec<JsonMember>)
    ensures
        final(m).deep_view() == old(m).deep_view() + enum_node_members_1(v.deep_view()),
{
    let ghost start = m.deep_view();
    push_member(m, "name", JsonValue::String(v.name.clone()));
    assert(m.deep_view() =~= start + (
        seq![("name"@, JsonView::String(v.deep_view().name))]
    ));
    match &v.label {
        Some(x) => {
            push_member(m, "label", JsonValue::String(x.clone()));
        },
        None => {},
    }
    assert(m.deep_view() =~= start + (
        seq![("name"@, JsonView::String(v.deep_view().name))]
        + opt_member(
            "label"@,
            match v.deep_view().label {
                Some(x) => Some(JsonView::String(x)),
                None => None,
            },
        )
    ));
    push_member(m, "type", text_json(model_type_word(v.enum_type)));
    assert(m.deep_view() =~= start + (
        seq![("name"@, JsonView::String(v.deep_view().name))]
        + opt_member(
            "label"@,
            match v.deep_view().label {
                Some(x) => Some(JsonView::String(x)),
                None => None,
            },
        )
        + seq![("type"@, JsonView::String(type_word(v.deep_view().enum_type)))]
    ));
    push_member(m, "source", JsonValue::String(v.source.clone()));
    assert(m.deep_view() =~= start + (
        seq![("name"@, JsonView::String(v.deep_view().name))]
        + opt_member(
            "label"@,
            match v.deep_view().label {
                Some(x) => Some(JsonView::String(x)),
                None => None,
            },
        )
        + seq![("type"@, JsonView::String(type_word(v.deep_view().enum_type)))]
        + seq![("source"@, JsonView::String(v.deep_view().source))]
    ));
}

fn enum_node_add_2(v: &EnumNode, m: &mut Vec<JsonMember>)
    ensures
        final(m).deep_view() == old(m).deep_view() + enum_node_members_2(v.deep_view()),
{
    let ghost start = m.deep_view();
    push_member(m, "line", JsonValue::UInt(v.line as u64));
    assert(m.deep_view() =~= start + (
        seq![("line"@, JsonView::Int(v.deep_view().line as int))]
    ));
    push_member(m, "inherits", strings_to_json(&v.inherits));
    assert(m.deep_view() =~= start + (
        seq![("line"@, JsonView::Int(v.deep_view().line as int))]
        + seq![("inherits"@, JsonView::Array(string_values(v.deep_view().inherits)))]
    ));
    match &v.description {
        Some(x) => {
            push_member(m, "description", JsonValue::String(x.clone()));
        },
        None => {},
    }
    assert(m.deep_view() =~= start + (
        seq![("line"@, JsonView::Int(v.deep_view().line as int))]
        + seq![("inherits"@, JsonView::Array(string_values(v.deep_view().inherits)))]
        + opt_member(
            "description"@,
            match v.deep_view().description {
                Some(x) => Some(JsonView::String(x)),
                None => None,
            },
        )
    ));
    push_member(m, "values", enum_value_list_to_json(&v.values));
    assert(m.deep_view() =~= start + (
        seq![("line"@, JsonView::Int(v.deep_view().line as int))]
        + seq![("inherits"@, JsonView::Array(string_values(v.deep_view().inherits)))]
        + opt_member(
            "description"@,
            match v.deep_view().description {
                Some(x) => Some(JsonView::String(x)),
                None => None,
            },
        )
        + seq![("values"@, JsonView::Array(enum_value_json_list(v.deep_view().values)))]
    ));
}

fn enum_node_add_3(v: &EnumNode, m: &mut Vec<JsonMember>)
    ensures
        final(m).deep_view() == old(m).deep_view() + enum_node_members_3(v.deep_view()),
{
    let ghost start = m.deep_view();
    push_member(m, "loc", source_location_to_json(&v.loc));
    assert(m.deep_view() =~= start + (
        seq![("loc"@, source_location_json(v.deep_view().loc))]
    ));
}

/// Turns a [`EnumNode`] into JSON.
pub fn enum_node_to_json(v: &EnumNode) -> (r: JsonValue)
    ensures
        r.deep_view() == enum_node_json(v.deep_view()),
{
    let mut m: Vec<JsonMember> = Vec::new();
    proof {
        assert(m.deep_view() =~= Seq::empty());
    }
    enum_node_add_1(v, &mut m);
    enum_node_add_2(v, &mut m);
    enum_node_add_3(v, &mut m);
    proof {
        assert(m.deep_view() =~= enum_node_members(v.deep_view()));
    }
    object(m)
}

/// Part 1 of the members of the JSON form of a [`ProjectInfo`].
pub open spec fn project_info_members_1(v: ProjectInfoView) -> Seq<(Seq<char>, JsonView)> {
    opt_member(
        "name"@,
        match v.name {
            Some(x) => Some(JsonView::String(x)),
            None => None,
        },
    )
        + opt_member(
            "version"@,
            match v.version {
                Some(x) => Some(JsonView::String(x)),
                None => None,
            },
        )
}

/// The members of the JSON form of a [`ProjectInfo`], in order. 
pub open spec fn project_info_members(v: ProjectInfoView) -> Seq<(Seq<char>, JsonView)> {
    project_info_members_1(v)
}

/// The JSON form of a [`ProjectInfo`].
pub open spec fn project_info_json(v: ProjectInfoView) -> JsonView {
    JsonView::Object(project_info_members(v))
}

fn project_info_add_1(v: &ProjectInfo, m: &mut Vec<JsonMember>)
    ensures
        final(m).deep_view() == old(m).deep_view() + project_info_members_1(v.deep_view()),
{
    let ghost start = m.deep_view();
    match &v.name {
        Some(x) => {
            push_member(m, "name", JsonValue::String(x.clone()));
        },
        None => {},
    }
    assert(m.deep_view() =~= start + (
        opt_member(
            "name"@,
            match v.deep_view().name {
                Some(x) => Some(JsonView::String(x)),
                None => None,
            },
        )
    ));
    match &v.version {
        Some(x) => {
            push_member(m, "version", JsonValue::String(x.clone()));
        },
        None => {},
    }
    assert(m.deep_view() =~= start + (
        opt_member(
            "name"@,
            match v.deep_view().name {
                Some(x) => Some(JsonView::String(x)),
                None => None,
            },
        )
        + opt_member(
            "version"@,
            match v.deep_view().version {
                Some(x) => Some(JsonView::String(x)),
                None => None,
            },
        )
    ));
}

/// Turns a [`ProjectInfo`] into JSON.
pub fn project_info_to_json(v: &ProjectInfo) -> (r: JsonValue)
    ensures
        r.deep_view() == project_info_json(v.deep_view()),
{
    let mut m: Vec<JsonMember> = Vec::new();
    proof {
        assert(m.deep_view() =~= Seq::empty());
    }
    project_info_add_1(v, &mut m);
    proof {
        assert(m.deep_view() =~= project_info_members(v.deep_view()));
    }
    object(m)
}

/// Part 1 of the members of the JSON form of a [`Diagnostic`].
pub open spec fn diagnostic_members_1(v: DiagnosticView) -> Seq<(Seq<char>, JsonView)> {
    seq![("code"@, JsonView::String(v.code))]
        + seq![("severity"@, JsonView::String(severity_word(v.severity)))]
        + seq![("file"@, JsonView::String(v.file))]
        + seq![("line"@, JsonView::Int(v.line as int))]
}

/// Part 2 of the members of the JSON form of a [`Diagnostic`].
pub open spec fn diagnostic_members_2(v: DiagnosticView) -> Seq<(Seq<char>, JsonView)> {
    seq![("col"@, JsonView::Int(v.col as int))]
        + seq![("message"@, JsonView::String(v.message))]
}

/// The members of the JSON form of a [`Diagnostic`], in order. 
pub open spec fn diagnostic_members(v: DiagnosticView) -> Seq<(Seq<char>, JsonView)> {
    diagnostic_members_1(v)
        + diagnostic_members_2(v)
}

/// The JSON form of a [`Diagnostic`].
pub open spec fn diagnostic_json(v: DiagnosticView) -> JsonView {
    JsonView::Object(diagnostic_members(v))
}

/// The JSON forms of a list of [`Diagnostic`].
pub open spec fn diagnostic_json_list(list: Seq<DiagnosticView>) -> Seq<JsonView> {
    Seq::new(list.len(), |i: int| diagnostic_json(list[i]))
}

/// Turns a list of [`Diagnostic`] into JSON.
pub fn diagnostic_list_to_json(list: &Vec<Diagnostic>) -> (r: JsonValue)
    ensures
        r.deep_view() == JsonView::Array(diagnostic_json_list(list.deep_view())),
{
    let mut out: Vec<JsonValue> = Vec::new();
    let mut i: usize = 0;
    while i < list.len()
        invariant
            i <= list@.len(),
            out@.len() == i,
            forall|j: int| 0 <= j < i ==> out@[j].deep_view() == diagnostic_json(list@[j].deep_view()),
        decreases list.len() - i,
    {
        out.push(diagnostic_to_json(&list[i]));
        i += 1;
    }
    proof {
        lemma_json_array(out);
        assert(out.deep_view() =~= diagnostic_json_list(list.deep_view()));
    }
    JsonValue::Array(out)
}

fn diagnostic_add_1(v: &Diagnostic, m: &mut Vec<JsonMember>)
    ensures
        final(m).deep_view() == old(m).deep_view() + diagnostic_members_1(v.deep_view()),
{
    let ghost start = m.deep_view();
    push_member(m, "code", JsonValue::String(v.code.clone()));
    assert(m.deep_view() =~= start + (
        seq![("code"@, JsonView::String(v.deep_view().code))]
    ));
    push_member(m, "severity", text_json(severity_text(v.severity)));
    assert(m.deep_view() =~= start + (
        seq![("code"@, JsonView::String(v.deep_view().code))]
        + seq![("severity"@, JsonView::String(severity_word(v.deep_view().severity)))]
    ));
    push_member(m, "file", JsonValue::String(v.file.clone()));
    assert(m.deep_view() =~= start + (
        seq![("code"@, JsonView::String(v.deep_view().code))]
        + seq![("severity"@, JsonView::String(severity_word(v.deep_view().severity)))]
        + seq![("file"@, JsonView::String(v.deep_view().file))]
    ));
    push_member(m, "line", JsonValue::UInt(v.line as u64));
    assert(m.deep_view() =~= start + (
        seq![("code"@, JsonView::String(v.deep_view().code))]
        + seq![("severity"@, JsonView::String(severity_word(v.deep_view().severity)))]
        + seq![("file"@, JsonView::String(v.deep_view().file))]
        + seq![("line"@, JsonView::Int(v.deep_view().line as int))]
    ));
}

fn diagnostic_add_2(v: &Diagnostic, m: &mut Vec<JsonMember>)
    ensures
        final(m).deep_view() == old(m).deep_view() + diagnostic_members_2(v.deep_view()),
{
    let ghost start = m.deep_view();
    push_member(m, "col", JsonValue::UInt(v.col as u64));
    assert(m.deep_view() =~= start + (
        seq![("col"@, JsonView::Int(v.deep_view().col as int))]
    ));
    push_member(m, "message", JsonValue::String(v.message.clone()));
    assert(m.deep_view() =~= start + (
        seq![("col"@, JsonView::Int(v.deep_view().col as int))]
        + seq![("message"@, JsonView::String(v.deep_view().message))]
    ));
}

/// Turns a [`Diagnostic`] into JSON.
pub fn diagnostic_to_json(v: &Diagnostic) -> (r: JsonValue)
    ensures
        r.deep_view() == diagnostic_json(v.deep_view()),
{
    let mut m: Vec<JsonMember> = Vec::new();
    proof {
        assert(m.deep_view() =~= Seq::empty());
    }
    diagnostic_add_1(v, &mut m);
    diagnostic_add_2(v, &mut m);
    proof {
        assert(m.deep_view() =~= diagnostic_members(v.deep_view()));
    }
    object(m)
}

/// Part 1 of the members of the JSON form of a [`AttributeRegistryEntry`].
pub open spec fn attribute_registry_entry_members_1(
    v: AttributeRegistryEntryView,
) -> Seq<(Seq<char>, JsonView)> {
    seq![("name"@, JsonView::String(v.name))]
        + opt_member(
            "description"@,
            match v.description {
                Some(x) => Some(JsonView::String(x)),
                None => None,
            },
        )
        + seq![("target"@, JsonView::Array(string_values(v.target)))]
        + seq![("type"@, JsonView::String(v.attr_type))]
}

/// Part 2 of the members of the JSON form of a [`AttributeRegistryEntry`].
pub open spec fn attribute_registry_entry_members_2(
    v: AttributeRegistryEntryView,
) -> Seq<(Seq<char>, JsonView)> {
    opt_member(
        "range"@,
        match v.range {
            Some(x) => Some(JsonView::Array(seq![JsonView::Number(x.0), JsonView::Number(x.1)])),
            None => None,
        },
    )
        + seq![("required"@, JsonView::Bool(v.required))]
        + opt_member(
            "defaultValue"@,
            match v.default_value {
                Some(x) => Some(arg_json(x)),
                None => None,
            },
        )
}

/// The members of the JSON form of a [`AttributeRegistryEntry`], in order. 
pub open spec fn attribute_registry_entry_members(
    v: AttributeRegistryEntryView,
) -> Seq<(Seq<char>, JsonView)> {
    attribute_registry_entry_members_1(v)
        + attribute_registry_entry_members_2(v)
}

/// The JSON form of a [`AttributeRegistryEntry`].
pub open spec fn attribute_registry_entry_json(v: AttributeRegistryEntryView) -> JsonView {
    JsonView::Object(attribute_registry_entry_members(v))
}

/// The JSON forms of a list of [`AttributeRegistryEntry`].
pub open spec fn attribute_registry_entry_json_list(
    list: Seq<AttributeRegistryEntryView>,
) -> Seq<JsonView> {
    Seq::new(list.len(), |i: int| attribute_registry_entry_json(list[i]))
}

/// Turns a list of [`AttributeRegistryEntry`] into JSON.
pub fn attribute_registry_entry_list_to_json(list: &Vec<AttributeRegistryEntry>) -> (r: JsonValue)
    ensures
        r.deep_view() == JsonView::Array(attribute_registry_entry_json_list(list.deep_view())),
{
    let mut out: Vec<JsonValue> = Vec::new();
    let mut i: usize = 0;
    while i < list.len()
        invariant
            i <= list@.len(),
            out@.len() == i,
            forall|j: int| 0 <= j < i ==> out@[j].deep_view() == attribute_registry_entry_json(list@[j].deep_view()),
        decreases list.len() - i,
    {
        out.push(attribute_registry_entry_to_json(&list[i]));
        i += 1;
    }
    proof {
        lemma_json_array(out);
        assert(out.deep_view() =~= attribute_registry_entry_json_list(list.deep_view()));
    }
    JsonValue::Array(out)
}

fn attribute_registry_entry_add_1(v: &AttributeRegistryEntry, m: &mut Vec<JsonMember>)
    ensures
        final(m).deep_view() == old(m).deep_view() + attribute_registry_entry_members_1(v.deep_view()),
{
    let ghost start = m.deep_view();
    push_member(m, "name", JsonValue::String(v.name.clone()));
    assert(m.deep_view() =~= start + (
        seq![("name"@, JsonView::String(v.deep_view().name))]
    ));
    match &v.description {
        Some(x) => {
            push_member(m, "description", JsonValue::String(x.clone()));
        },
        None => {},
    }
    assert(m.deep_view() =~= start + (
        seq![("name"@, JsonView::String(v.deep_view().name))]
        + opt_member(
            "description"@,
            match v.deep_view().description {
                Some(x) => Some(JsonView::String(x)),
                None => None,
            },
        )
    ));
    push_member(m, "target", strings_to_json(&v.target));
    assert(m.deep_view() =~= start + (
        seq![("name"@, JsonView::String(v.deep_view().name))]
        + opt_member(
            "description"@,
            match v.deep_view().description {
                Some(x) => Some(JsonView::String(x)),
                None => None,
            },
        )
        + seq![("target"@, JsonView::Array(string_values(v.deep_view().target)))]
    ));
    push_member(m, "type", JsonValue::String(v.attr_type.clone()));
    assert(m.deep_view() =~= start + (
        seq![("name"@, JsonView::String(v.deep_view().name))]
        + opt_member(
            "description"@,
            match v.deep_view().description {
                Some(x) => Some(JsonView::String(x)),
                None => None,
            },
        )
        + seq![("target"@, JsonView::Array(string_values(v.deep_view().target)))]
        + seq![("type"@, JsonView::String(v.deep_view().attr_type))]
    ));
}

fn attribute_registry_entry_add_2(v: &AttributeRegistryEntry, m: &mut Vec<JsonMember>)
    ensures
        final(m).deep_view() == old(m).deep_view() + attribute_registry_entry_members_2(v.deep_view()),
{
    let ghost start = m.deep_view();
    match &v.range {
        Some(x) => {
            push_member(m, "range", range_to_json(x));
        },
        None => {},
    }
    assert(m.deep_view() =~= start + (
        opt_member(
            "range"@,
            match v.deep_view().range {
                Some(x) => Some(JsonView::Array(seq![JsonView::Number(x.0), JsonView::Number(x.1)])),
                None => None,
            },
        )
    ));
    push_member(m, "required", JsonValue::Bool(v.required));
    assert(m.deep_view() =~= start + (
        opt_member(
            "range"@,
            match v.deep_view().range {
                Some(x) => Some(JsonView::Array(seq![JsonView::Number(x.0), JsonView::Number(x.1)])),
                None => None,
            },
        )
        + seq![("required"@, JsonView::Bool(v.deep_view().required))]
    ));
    match &v.default_value {
        Some(x) => {
            push_member(m, "defaultValue", arg_to_json(x));
        },
        None => {},
    }
    assert(m.deep_view() =~= start + (
        opt_member(
            "range"@,
            match v.deep_view().range {
                Some(x) => Some(JsonView::Array(seq![JsonView::Number(x.0), JsonView::Number(x.1)])),
                None => None,
            },
        )
        + seq![("required"@, JsonView::Bool(v.deep_view().required))]
        + opt_member(
            "defaultValue"@,
            match v.deep_view().default_value {
                Some(x) => Some(arg_json(x)),
                None => None,
            },
        )
    ));
}

/// Turns a [`AttributeRegistryEntry`] into JSON.
pub fn attribute_registry_entry_to_json(v: &AttributeRegistryEntry) -> (r: JsonValue)
    ensures
        r.deep_view() == attribute_registry_entry_json(v.deep_view()),
{
    let mut m: Vec<JsonMember> = Vec::new();
    proof {
        assert(m.deep_view() =~= Seq::empty());
    }
    attribute_registry_entry_add_1(v, &mut m);
    attribute_registry_entry_add_2(v, &mut m);
    proof {
        assert(m.deep_view() =~= attribute_registry_entry_members(v.deep_view()));
    }
    object(m)
}

/// Part 1 of the members of the JSON form of a [`M3lAst`].
pub open spec fn m3l_ast_members_1(v: M3lAstView) -> Seq<(Seq<char>, JsonView)> {
    seq![("parserVersion"@, JsonView::String(v.parser_version))]
        + seq![("astVersion"@, JsonView::String(v.ast_version))]
        + seq![("project"@, project_info_json(v.project))]
        + seq![("sources"@, JsonView::Array(string_values(v.sources)))]
}

/// Part 2 of the members of the JSON form of a [`M3lAst`].
pub open spec fn m3l_ast_members_2(v: M3lAstView) -> Seq<(Seq<char>, JsonView)> {
    seq![("models"@, JsonView::Array(model_node_json_list(v.models)))]
        + seq![("enums"@, JsonView::Array(enum_node_json_list(v.enums)))]
        + seq![("interfaces"@, JsonView::Array(model_node_json_list(v.interfaces)))]
        + seq![("views"@, JsonView::Array(model_node_json_list(v.views)))]
}

/// Part 3 of the members of the JSON form of a [`M3lAst`].
pub open spec fn m3l_ast_members_3(v: M3lAstView) -> Seq<(Seq<char>, JsonView)> {
    seq![
        ("attributeRegistry"@, JsonView::Array(attribute_registry_entry_json_list(v.attribute_registry))),
    ]
        + seq![("errors"@, JsonView::Array(diagnostic_json_list(v.errors)))]
        + seq![("warnings"@, JsonView::Array(diagnostic_json_list(v.warnings)))]
}

/// The members of the JSON form of a [`M3lAst`], in order. 
pub open spec fn m3l_ast_members(v: M3lAstView) -> Seq<(Seq<char>, JsonView)> {
    m3l_ast_members_1(v)
        + m3l_ast_members_2(v)
        + m3l_ast_members_3(v)
}

/// The JSON form of a [`M3lAst`].
pub open spec fn m3l_ast_json(v: M3lAstView) -> JsonView {
    JsonView::Object(m3l_ast_members(v))
}

fn m3l_ast_add_1(v: &M3lAst, m: &mut Vec<JsonMember>)
    ensures
        final(m).deep_view() == old(m).deep_view() + m3l_ast_members_1(v.deep_view()),
{
    let ghost start = m.deep_view();
    push_member(m, "parserVersion", JsonValue::String(v.parser_version.clone()));
    assert(m.deep_view() =~= start + (
        seq![("parserVersion"@, JsonView::String(v.deep_view().parser_version))]
    ));
    push_member(m, "astVersion", JsonValue::String(v.ast_version.clone()));
    assert(m.deep_view() =~= start + (
        seq![("parserVersion"@, JsonView::String(v.deep_view().parser_version))]
        + seq![("astVersion"@, JsonView::String(v.deep_view().ast_version))]
    ));
    push_member(m, "project", project_info_to_json(&v.project));
    assert(m.deep_view() =~= start + (
        seq![("parserVersion"@, JsonView::String(v.deep_view().parser_version))]
        + seq![("astVersion"@, JsonView::String(v.deep_view().ast_version))]
        + seq![("project"@, project_info_json(v.deep_view().project))]
    ));
    push_member(m, "sources", strings_to_json(&v.sources));
    assert(m.deep_view() =~= start + (
        seq![("parserVersion"@, JsonView::String(v.deep_view().parser_version))]
        + seq![("astVersion"@, JsonView::String(v.deep_view().ast_version))]
        + seq![("project"@, project_info_json(v.deep_view().project))]
        + seq![("sources"@, JsonView::Array(string_values(v.deep_view().sources)))]
    ));
}

fn m3l_ast_add_2(v: &M3lAst, m: &mut Vec<JsonMember>)
    ensures
        final(m).deep_view() == old(m).deep_view() + m3l_ast_members_2(v.deep_view()),
{
    let ghost start = m.deep_view();
    push_member(m, "models", model_node_list_to_json(&v.models));
    assert(m.deep_view() =~= start + (
        seq![("models"@, JsonView::Array(model_node_json_list(v.deep_view().models)))]
    ));
    push_member(m, "enums", enum_node_list_to_json(&v.enums));
    assert(m.deep_view() =~= start + (
        seq![("models"@, JsonView::Array(model_node_json_list(v.deep_view().models)))]
        + seq![("enums"@, JsonView::Array(enum_node_json_list(v.deep_view().enums)))]
    ));
    push_member(m, "interfaces", model_node_list_to_json(&v.interfaces));
    assert(m.deep_view() =~= start + (
        seq![("models"@, JsonView::Array(model_node_json_list(v.deep_view().models)))]
        + seq![("enums"@, JsonView::Array(enum_node_json_list(v.deep_view().enums)))]
        + seq![("interfaces"@, JsonView::Array(model_node_json_list(v.deep_view().interfaces)))]
    ));
    push_member(m, "views", model_node_list_to_json(&v.views));
    assert(m.deep_view() =~= start + (
        seq![("models"@, JsonView::Array(model_node_json_list(v.deep_view().models)))]
        + seq![("enums"@, JsonView::Array(enum_node_json_list(v.deep_view().enums)))]
        + seq![("interfaces"@, JsonView::Array(model_node_json_list(v.deep_view().interfaces)))]
        + seq![("views"@, JsonView::Array(model_node_json_list(v.deep_view().views)))]
    ));
}

fn m3l_ast_add_3(v: &M3lAst, m: &mut Vec<JsonMember>)
    ensures
        final(m).deep_view() == old(m).deep_view() + m3l_ast_members_3(v.deep_view()),
{
    let ghost start = m.deep_view();
    push_member(m, "attributeRegistry", attribute_registry_entry_list_to_json(&v.attribute_registry));
    assert(m.deep_view() =~= start + (
        seq![
            ("attributeRegistry"@, JsonView::Array(attribute_registry_entry_json_list(v.deep_view().attribute_registry))),
        ]
    ));
    push_member(m, "errors", diagnostic_list_to_json(&v.errors));
    assert(m.deep_view() =~= start + (
        seq![
            ("attributeRegistry"@, JsonView::Array(attribute_registry_entry_json_list(v.deep_view().attribute_registry))),
        ]
        + seq![("errors"@, JsonView::Array(diagnostic_json_list(v.deep_view().errors)))]
    ));
    push_member(m, "warnings", diagnostic_list_to_json(&v.warnings));
    assert(m.deep_view() =~= start + (
        seq![
            ("attributeRegistry"@, JsonView::Array(attribute_registry_entry_json_list(v.deep_view().attribute_registry))),
        ]
        + seq![("errors"@, JsonView::Array(diagnostic_json_list(v.deep_view().errors)))]
        + seq![("warnings"@, JsonView::Array(diagnostic_json_list(v.deep_view().warnings)))]
    ));
}

/// Turns a [`M3lAst`] into JSON.
pub fn m3l_ast_to_json(v: &M3lAst) -> (r: JsonValue)
    ensures
        r.deep_view() == m3l_ast_json(v.deep_view()),
{
    let mut m: Vec<JsonMember> = Vec::new();
    proof {
        assert(m.deep_view() =~= Seq::empty());
    }
    m3l_ast_add_1(v, &mut m);
    m3l_ast_add_2(v, &mut m);
    m3l_ast_add_3(v, &mut m);
    proof {
        assert(m.deep_view() =~= m3l_ast_members(v.deep_view()));
    }
    object(m)
}

/// Part 1 of the members of the JSON form of a [`ValidateResult`].
pub open spec fn validate_result_members_1(v: ValidateResultView) -> Seq<(Seq<char>, JsonView)> {
    seq![("errors"@, JsonView::Array(diagnostic_json_list(v.errors)))]
        + seq![("warnings"@, JsonView::Array(diagnostic_json_list(v.warnings)))]
}

/// The members of the JSON form of a [`ValidateResult`], in order. 
pub open spec fn validate_result_members(v: ValidateResultView) -> Seq<(Seq<char>, JsonView)> {
    validate_result_members_1(v)
}

/// The JSON form of a [`ValidateResult`].
pub open spec fn validate_result_json(v: ValidateResultView) -> JsonView {
    JsonView::Object(validate_result_members(v))
}

fn validate_result_add_1(v: &ValidateResult, m: &mut Vec<JsonMember>)
    ensures
        final(m).deep_view() == old(m).deep_view() + validate_result_members_1(v.deep_view()),
{
    let ghost start = m.deep_view();
    push_member(m, "errors", diagnostic_list_to_json(&v.errors));
    assert(m.deep_view() =~= start + (
        seq![("errors"@, JsonView::Array(diagnostic_json_list(v.deep_view().errors)))]
    ));
    push_member(m, "warnings", diagnostic_list_to_json(&v.warnings));
    assert(m.deep_view() =~= start + (
        seq![("errors"@, JsonView::Array(diagnostic_json_list(v.deep_view().errors)))]
        + seq![("warnings"@, JsonView::Array(diagnostic_json_list(v.deep_view().warnings)))]
    ));
}

/// Turns a [`ValidateResult`] into JSON.
pub fn validate_result_to_json(v: &ValidateResult) -> (r: JsonValue)
    ensures
        r.deep_view() == validate_result_json(v.deep_view()),
{
    let mut m: Vec<JsonMember> = Vec::new();
    proof {
        assert(m.deep_view() =~= Seq::empty());
    }
    validate_result_add_1(v, &mut m);
    proof {
        assert(m.deep_view() =~= validate_result_members(v.deep_view()));
    }
    object(m)
}
/// Whether one of the members has the key `key`.
pub open spec fn has_key(members: Seq<(Seq<char>, JsonView)>, key: Seq<char>) -> bool {
    exists|i: int| 0 <= i < members.len() && (#[trigger] members[i]).0 == key
}

/// The keys of the members, in order.
pub open spec fn keys_of(members: Seq<(Seq<char>, JsonView)>) -> Seq<Seq<char>> {
    Seq::new(members.len(), |i: int| members[i].0)
}

/// A key of the first of two lists is a key of both together.
pub proof fn lemma_key_left(
    a: Seq<(Seq<char>, JsonView)>,
    b: Seq<(Seq<char>, JsonView)>,
    key: Seq<char>,
)
    requires
        has_key(a, key),
    ensures
        has_key(a + b, key),
{
    let i = choose|i: int| 0 <= i < a.len() && (#[trigger] a[i]).0 == key;
    assert((a + b)[i] == a[i]);
}

/// A key of the second of two lists is a key of both together.
pub proof fn lemma_key_right(
    a: Seq<(Seq<char>, JsonView)>,
    b: Seq<(Seq<char>, JsonView)>,
    key: Seq<char>,
)
    requires
        has_key(b, key),
    ensures
        has_key(a + b, key),
{
    let i = choose|i: int| 0 <= i < b.len() && (#[trigger] b[i]).0 == key;
    assert((a + b)[a.len() + i] == b[i]);
}

/// A list of one member has the key of that member.
pub proof fn lemma_key_single(key: Seq<char>, value: JsonView)
    ensures
        has_key(seq![(key, value)], key),
{
    assert(seq![(key, value)][0].0 == key);
}

/// The keys that every field node has.
pub open spec fn required_field_keys() -> Seq<Seq<char>> {
    seq![
        "name"@,
        "nullable"@,
        "array"@,
        "arrayItemNullable"@,
        "kind"@,
        "attributes"@,
        "loc"@,
    ]
}

/// Every field node has the keys `name`, `nullable`, `array`,
/// `arrayItemNullable`, `kind`, `attributes` and `loc` in its JSON form.
pub proof fn lemma_field_keys(f: FieldNodeView)
    ensures
        forall|k: int|
            0 <= k < required_field_keys().len() ==> has_key(
                field_node_members(f),
                #[trigger] required_field_keys()[k],
            ),
        has_key(field_node_members(f), "arrayItemNullable"@),
{
    let p1 = field_node_members_1(f);
    let p2 = field_node_members_2(f);
    let p3 = field_node_members_3(f);
    let p4 = field_node_members_4(f);
    let p5 = field_node_members_5(f);
    let all = field_node_members(f);
    assert(all == p1 + p2 + p3 + p4 + p5);
    // name
    let label = opt_member(
        "label"@,
        match f.label {
            Some(x) => Some(JsonView::String(x)),
            None => None,
        },
    );
    let typed = opt_member(
        "type"@,
        match f.field_type {
            Some(x) => Some(JsonView::String(x)),
            None => None,
        },
    );
    let params = opt_member(
        "params"@,
        match f.params {
            Some(x) => Some(JsonView::Array(param_json_list(x))),
            None => None,
        },
    );
    lemma_key_single("name"@, JsonView::String(f.name));
    lemma_key_left(seq![("name"@, JsonView::String(f.name))], label, "name"@);
    lemma_key_left(seq![("name"@, JsonView::String(f.name))] + label, typed, "name"@);
    lemma_key_left(seq![("name"@, JsonView::String(f.name))] + label + typed, params, "name"@);
    assert(has_key(p1, "name"@));
    // nullable, array, arrayItemNullable
    let generic = opt_member(
        "genericParams"@,
        match f.generic_params {
            Some(x) => Some(JsonView::Array(string_values(x))),
            None => None,
        },
    );
    let nullable = seq![("nullable"@, JsonView::Bool(f.nullable))];
    let array = seq![("array"@, JsonView::Bool(f.array))];
    let item = seq![("arrayItemNullable"@, JsonView::Bool(f.array_item_nullable))];
    lemma_key_single("nullable"@, JsonView::Bool(f.nullable));
    lemma_key_single("array"@, JsonView::Bool(f.array));
    lemma_key_single("arrayItemNullable"@, JsonView::Bool(f.array_item_nullable));
    lemma_key_right(generic, nullable, "nullable"@);
    lemma_key_left(generic + nullable, array, "nullable"@);
    lemma_key_left(generic + nullable + array, item, "nullable"@);
    lemma_key_right(generic + nullable, array, "array"@);
    lemma_key_left(generic + nullable + array, item, "array"@);
    lemma_key_right(generic + nullable + array, item, "arrayItemNullable"@);
    assert(has_key(p2, "nullable"@));
    assert(has_key(p2, "array"@));
    assert(has_key(p2, "arrayItemNullable"@));
    // kind
    let kind = seq![("kind"@, JsonView::String(kind_word(f.kind)))];
    let value = opt_member(
        "defaultValue"@,
        match f.default_value {
            Some(x) => Some(JsonView::String(x)),
            None => None,
        },
    );
    let value_type = opt_member(
        "defaultValueType"@,
        match f.default_value_type {
            Some(x) => Some(JsonView::String(default_type_word(x))),
            None => None,
        },
    );
    let description = opt_member(
        "description"@,
        match f.description {
            Some(x) => Some(JsonView::String(x)),
            None => None,
        },
    );
    lemma_key_single("kind"@, JsonView::String(kind_word(f.kind)));
    lemma_key_left(kind, value, "kind"@);
    lemma_key_left(kind + value, value_type, "kind"@);
    lemma_key_left(kind + value + value_type, description, "kind"@);
    assert(has_key(p3, "kind"@));
    // attributes
    let attributes = seq![
        ("attributes"@, JsonView::Array(field_attribute_json_list(f.attributes))),
    ];
    let framework = opt_member(
        "frameworkAttrs"@,
        match f.framework_attrs {
            Some(x) => Some(JsonView::Array(custom_attribute_json_list(x))),
            None => None,
        },
    );
    let lookup = opt_member(
        "lookup"@,
        match f.lookup {
            Some(x) => Some(lookup_def_json(x)),
            None => None,
        },
    );
    let rollup = opt_member(
        "rollup"@,
        match f.rollup {
            Some(x) => Some(rollup_def_json(x)),
            None => None,
        },
    );
    lemma_key_single("attributes"@, JsonView::Array(field_attribute_json_list(f.attributes)));
    lemma_key_left(attributes, framework, "attributes"@);
    lemma_key_left(attributes + framework, lookup, "attributes"@);
    lemma_key_left(attributes + framework + lookup, rollup, "attributes"@);
    assert(has_key(p4, "attributes"@));
    // loc
    let computed = opt_member(
        "computed"@,
        match f.computed {
            Some(x) => Some(computed_def_json(x)),
            None => None,
        },
    );
    let values = opt_member(
        "enumValues"@,
        match f.enum_values {
            Some(x) => Some(JsonView::Array(enum_value_json_list(x))),
            None => None,
        },
    );
    let fields = opt_member(
        "fields"@,
        match f.fields {
            Some(x) => Some(JsonView::Array(field_node_json_list(x))),
            None => None,
        },
    );
    let loc = seq![("loc"@, source_location_json(f.loc))];
    lemma_key_single("loc"@, source_location_json(f.loc));
    lemma_key_right(computed + values + fields, loc, "loc"@);
    assert(has_key(p5, "loc"@));
    // together
    lemma_key_left(p1, p2, "name"@);
    lemma_key_left(p1 + p2, p3, "name"@);
    lemma_key_left(p1 + p2 + p3, p4, "name"@);
    lemma_key_left(p1 + p2 + p3 + p4, p5, "name"@);
    lemma_key_right(p1, p2, "nullable"@);
    lemma_key_left(p1 + p2, p3, "nullable"@);
    lemma_key_left(p1 + p2 + p3, p4, "nullable"@);
    lemma_key_left(p1 + p2 + p3 + p4, p5, "nullable"@);
    lemma_key_right(p1, p2, "array"@);
    lemma_key_left(p1 + p2, p3, "array"@);
    lemma_key_left(p1 + p2 + p3, p4, "array"@);
    lemma_key_left(p1 + p2 + p3 + p4, p5, "array"@);
    lemma_key_right(p1, p2, "arrayItemNullable"@);
    lemma_key_left(p1 + p2, p3, "arrayItemNullable"@);
    lemma_key_left(p1 + p2 + p3, p4, "arrayItemNullable"@);
    lemma_key_left(p1 + p2 + p3 + p4, p5, "arrayItemNullable"@);
    lemma_key_right(p1 + p2, p3, "kind"@);
    lemma_key_left(p1 + p2 + p3, p4, "kind"@);
    lemma_key_left(p1 + p2 + p3 + p4, p5, "kind"@);
    lemma_key_right(p1 + p2 + p3, p4, "attributes"@);
    lemma_key_left(p1 + p2 + p3 + p4, p5, "attributes"@);
    lemma_key_right(p1 + p2 + p3 + p4, p5, "loc"@);
    assert forall|k: int| 0 <= k < required_field_keys().len() implies has_key(
        all,
        #[trigger] required_field_keys()[k],
    ) by {
        if k == 0 {
        } else if k == 1 {
        } else if k == 2 {
        } else if k == 3 {
        } else if k == 4 {
        } else if k == 5 {
        } else {
        }
    }
}

/// The keys of the tree, in order.
pub open spec fn tree_keys() -> Seq<Seq<char>> {
    seq![
        "parserVersion"@,
        "astVersion"@,
        "project"@,
        "sources"@,
        "models"@,
        "enums"@,
        "interfaces"@,
        "views"@,
        "attributeRegistry"@,
        "errors"@,
        "warnings"@,
    ]
}

/// The JSON form of a tree has the keys of `tree_keys`, each once and in
/// this order, and so neither `parser_version` nor `ast_version`.
pub proof fn lemma_tree_keys(ast: M3lAstView)
    ensures
        keys_of(m3l_ast_members(ast)) == tree_keys(),
        !has_key(m3l_ast_members(ast), "parser_version"@),
        !has_key(m3l_ast_members(ast), "ast_version"@),
{
    let m = m3l_ast_members(ast);
    assert(m == m3l_ast_members_1(ast) + m3l_ast_members_2(ast) + m3l_ast_members_3(ast));
    assert(m.len() == 11);
    assert(keys_of(m) =~= tree_keys());
    reveal_strlit("parser_version");
    reveal_strlit("ast_version");
    reveal_strlit("parserVersion");
    reveal_strlit("astVersion");
    reveal_strlit("project");
    reveal_strlit("sources");
    reveal_strlit("models");
    reveal_strlit("enums");
    reveal_strlit("interfaces");
    reveal_strlit("views");
    reveal_strlit("attributeRegistry");
    reveal_strlit("errors");
    reveal_strlit("warnings");
    assert forall|i: int| 0 <= i < m.len() implies (#[trigger] m[i]).0 != "parser_version"@
        && m[i].0 != "ast_version"@ by {
        assert(keys_of(m)[i] == m[i].0);
        let k = tree_keys()[i];
        if k.len() == "parser_version"@.len() {
            assert(k[6] != "parser_version"@[6]);
        }
        if k.len() == "ast_version"@.len() {
            assert(k[3] != "ast_version"@[3]);
        }
    }
}

} // verus!
