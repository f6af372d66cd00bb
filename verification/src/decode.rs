//! Reading the tree back from its JSON form, and the law that ties the two
//! directions together: what was written is read back unchanged.
//!
//! A member is found by its key, wherever it stands among the members; keys
//! that no node has are passed over. A key that stands only where something
//! is set may be missing; every other key must be there, with a value of
//! the right shape.

use vstd::prelude::*;
use crate::json::{
    arg_json_list, attribute_registry_entry_json, attribute_registry_entry_json_list,
    attribute_registry_entry_members, computed_def_json, computed_def_members,
    custom_attribute_json, custom_attribute_json_list, custom_attribute_members,
    custom_attribute_parsed_json, custom_attribute_parsed_members, default_type_word,
    diagnostic_json, diagnostic_json_list, diagnostic_members, enum_node_json, enum_node_json_list,
    enum_node_members, enum_value_json, enum_value_json_list, enum_value_members,
    field_attribute_json, field_attribute_json_list, field_attribute_members, field_node_json,
    field_node_json_list, field_node_members, join_def_json, join_def_json_list, join_def_members,
    kind_word, lookup_def_json, lookup_def_members, m3l_ast_json, m3l_ast_members, model_node_json,
    model_node_json_list, model_node_members, param_json, param_json_list, project_info_json,
    project_info_members, refresh_def_json, refresh_def_members, rollup_def_json,
    rollup_def_members, sections_json, sections_members, severity_word, source_location_json,
    source_location_members, view_source_def_json, view_source_def_members,
};
use crate::report::type_word;
use crate::sections::opt_member;
use crate::text::str_eq;
use crate::types::{
    clone_json, clone_vec_json_member, clone_vec_json_value, lemma_field_view_fields,
    lemma_json_array, lemma_json_object, AttrArgValue, AttrArgView, AttributeRegistryEntry,
    AttributeRegistryEntryView, ComputedDef, ComputedDefView, CustomAttribute,
    CustomAttributeParsed, CustomAttributeParsedView, CustomAttributeView, DefaultValueType,
    Diagnostic, DiagnosticSeverity, DiagnosticView, EnumNode, EnumNodeView, EnumValue,
    EnumValueView, FieldAttribute, FieldAttributeView, FieldKind, FieldNode, FieldNodeView,
    JoinDef, JoinDefView, JsonMember, JsonValue, JsonView, LookupDef, LookupDefView, M3lAst,
    M3lAstView, ModelNode, ModelNodeView, ModelType, NumberLit, ParamValue, ParamView, ProjectInfo,
    ProjectInfoView, RefreshDef, RefreshDefView, RollupDef, RollupDefView, Sections, SectionsView,
    SourceLocation, SourceLocationView, ViewSourceDef, ViewSourceDefView,
};
use crate::values::{arg_json, find_member, member_index, string_values};

verus! {

/// The value of the first member with the key `key`, where there is one.
#[verifier::opaque]
pub open spec fn member(m: Seq<(Seq<char>, JsonView)>, key: Seq<char>) -> Option<JsonView> {
    let i = member_index(m, key, 0);
    if 0 <= i < m.len() {
        Some(m[i].1)
    } else {
        None
    }
}

/// The search for a key from `from` on goes through the first of two lists
/// and then through the second.
pub proof fn lemma_index_in_both(
    a: Seq<(Seq<char>, JsonView)>,
    b: Seq<(Seq<char>, JsonView)>,
    key: Seq<char>,
    from: int,
)
    requires
        0 <= from <= a.len() + b.len(),
    ensures
        from <= a.len() ==> member_index(a + b, key, from) == (if member_index(a, key, from)
            < a.len() {
            member_index(a, key, from)
        } else {
            a.len() + member_index(b, key, 0)
        }),
        from >= a.len() ==> member_index(a + b, key, from) == a.len() + member_index(
            b,
            key,
            from - a.len(),
        ),
        from <= member_index(a + b, key, from) <= a.len() + b.len(),
    decreases a.len() + b.len() - from,
{
    if from < a.len() + b.len() {
        lemma_index_in_both(a, b, key, from + 1);
        if from < a.len() {
            assert((a + b)[from] == a[from]);
        } else {
            assert((a + b)[from] == b[from - a.len()]);
        }
    }
}

/// How a member is found in lists that are put together from parts.
pub proof fn lemma_member_rules()
    ensures
        forall|a: Seq<(Seq<char>, JsonView)>, b: Seq<(Seq<char>, JsonView)>, key: Seq<char>|
            #[trigger] member(a + b, key) == (if member(a, key) is Some {
                member(a, key)
            } else {
                member(b, key)
            }),
        forall|k: Seq<char>, v: JsonView, key: Seq<char>|
            #[trigger] member(seq![(k, v)], key) == (if k == key {
                Some(v)
            } else {
                None
            }),
        forall|k: Seq<char>, o: Option<JsonView>, key: Seq<char>|
            #[trigger] member(opt_member(k, o), key) == (if k == key {
                o
            } else {
                None
            }),
{
    reveal(member);
    assert forall|a: Seq<(Seq<char>, JsonView)>, b: Seq<(Seq<char>, JsonView)>, key: Seq<char>|
        #[trigger] member(a + b, key) == (if member(a, key) is Some {
            member(a, key)
        } else {
            member(b, key)
        }) by {
        lemma_index_in_both(a, b, key, 0);
        lemma_index_in_both(a, Seq::empty(), key, 0);
        lemma_index_in_both(Seq::empty(), b, key, 0);
        assert(a + Seq::empty() =~= a);
        assert(Seq::<(Seq<char>, JsonView)>::empty() + b =~= b);
        let i = member_index(a, key, 0);
        if i < a.len() {
            assert((a + b)[i] == a[i]);
        } else {
            let j = member_index(b, key, 0);
            if j < b.len() {
                assert((a + b)[a.len() + j] == b[j]);
            }
        }
    }
    assert forall|k: Seq<char>, v: JsonView, key: Seq<char>|
        #[trigger] member(seq![(k, v)], key) == (if k == key {
            Some(v)
        } else {
            None
        }) by {
        let s = seq![(k, v)];
        assert(member_index(s, key, 1) == 1);
        assert(s[0] == (k, v));
    }
    assert forall|k: Seq<char>, o: Option<JsonView>, key: Seq<char>|
        #[trigger] member(opt_member(k, o), key) == (if k == key {
            o
        } else {
            None
        }) by {
        match o {
            Some(v) => {
                let s = seq![(k, v)];
                assert(member_index(s, key, 1) == 1);
                assert(s[0] == (k, v));
            },
            None => {},
        }
    }
}

/// The value of the first member with the key `key`, where there is one.
pub fn get<'a>(m: &'a Vec<JsonMember>, key: &str) -> (r: Option<&'a JsonValue>)
    ensures
        r.deep_view() == member(m.deep_view(), key@),
        r matches Some(x) ==> decreases_to!(m => x),
{
    let i = find_member(m, key);
    proof {
        reveal(member);
    }
    if i < m.len() {
        proof {
            assert(m.deep_view()[i as int] == m@[i as int].deep_view());
        }
        Some(&m[i].value)
    } else {
        None
    }
}

/// The text of a JSON string.
pub open spec fn text_of(j: JsonView) -> Option<Seq<char>> {
    match j {
        JsonView::String(s) => Some(s),
        _ => None,
    }
}

/// The text of a JSON string.
pub fn text_from_json(j: &JsonValue) -> (r: Option<String>)
    ensures
        r.deep_view() == text_of(j.deep_view()),
{
    match j {
        JsonValue::String(s) => Some(s.clone()),
        _ => None,
    }
}

/// The truth value of a JSON boolean.
pub open spec fn bool_of(j: JsonView) -> Option<bool> {
    match j {
        JsonView::Bool(b) => Some(b),
        _ => None,
    }
}

/// The truth value of a JSON boolean.
pub fn bool_from_json(j: &JsonValue) -> (r: Option<bool>)
    ensures
        r.deep_view() == bool_of(j.deep_view()),
{
    match j {
        JsonValue::Bool(b) => Some(*b),
        _ => None,
    }
}

/// The count that a JSON integer stands for, where it is one that fits.
pub open spec fn count_of(j: JsonView) -> Option<usize> {
    match j {
        JsonView::Int(i) => if 0 <= i <= usize::MAX {
            Some(i as usize)
        } else {
            None
        },
        _ => None,
    }
}

/// The count that a JSON integer stands for, where it is one that fits.
pub fn count_from_json(j: &JsonValue) -> (r: Option<usize>)
    ensures
        r.deep_view() == count_of(j.deep_view()),
{
    match j {
        JsonValue::Int(i) => if *i >= 0 && *i as u64 <= usize::MAX as u64 {
            Some(*i as usize)
        } else {
            None
        },
        JsonValue::UInt(u) => if *u <= usize::MAX as u64 {
            Some(*u as usize)
        } else {
            None
        },
        _ => None,
    }
}


/// Any JSON value, as it is.
pub open spec fn json_of(j: JsonView) -> Option<JsonView> {
    Some(j)
}

/// Any JSON value, as it is.
pub fn json_from_json(j: &JsonValue) -> (r: Option<JsonValue>)
    ensures
        r.deep_view() == json_of(j.deep_view()),
{
    Some(clone_json(j))
}

/// The kind of field that a word names.
pub open spec fn field_kind_of(j: JsonView) -> Option<FieldKind> {
    match j {
        JsonView::String(s) => if s == "stored"@ {
            Some(FieldKind::Stored)
        } else if s == "computed"@ {
            Some(FieldKind::Computed)
        } else if s == "lookup"@ {
            Some(FieldKind::Lookup)
        } else if s == "rollup"@ {
            Some(FieldKind::Rollup)
        } else {
            None
        },
        _ => None,
    }
}

/// The kind of field that a word names.
pub fn field_kind_from_json(j: &JsonValue) -> (r: Option<FieldKind>)
    ensures
        r.deep_view() == field_kind_of(j.deep_view()),
{
    match j {
        JsonValue::String(s) => if str_eq(s.as_str(), "stored") {
            Some(FieldKind::Stored)
        } else if str_eq(s.as_str(), "computed") {
            Some(FieldKind::Computed)
        } else if str_eq(s.as_str(), "lookup") {
            Some(FieldKind::Lookup)
        } else if str_eq(s.as_str(), "rollup") {
            Some(FieldKind::Rollup)
        } else {
            None
        },
        _ => None,
    }
}

/// The word of a kind of field names that kind.
pub proof fn lemma_field_kind_round(k: FieldKind)
    ensures
        field_kind_of(JsonView::String(kind_word(k))) == Some(k),
{
    reveal_strlit("stored");
    reveal_strlit("computed");
    reveal_strlit("lookup");
    reveal_strlit("rollup");
    assert("stored"@.len() == 6 && "computed"@.len() == 8);
    assert("stored"@[0] == 's' && "lookup"@[0] == 'l' && "rollup"@[0] == 'r');
}

/// The type of default value that a word names.
pub open spec fn default_type_of(j: JsonView) -> Option<DefaultValueType> {
    match j {
        JsonView::String(s) => if s == "literal"@ {
            Some(DefaultValueType::Literal)
        } else if s == "expression"@ {
            Some(DefaultValueType::Expression)
        } else {
            None
        },
        _ => None,
    }
}

/// The type of default value that a word names.
pub fn default_type_from_json(j: &JsonValue) -> (r: Option<DefaultValueType>)
    ensures
        r.deep_view() == default_type_of(j.deep_view()),
{
    match j {
        JsonValue::String(s) => if str_eq(s.as_str(), "literal") {
            Some(DefaultValueType::Literal)
        } else if str_eq(s.as_str(), "expression") {
            Some(DefaultValueType::Expression)
        } else {
            None
        },
        _ => None,
    }
}

/// The word of a type of default value names that type.
pub proof fn lemma_default_type_round(t: DefaultValueType)
    ensures
        default_type_of(JsonView::String(default_type_word(t))) == Some(t),
{
    reveal_strlit("literal");
    reveal_strlit("expression");
    assert("literal"@.len() == 7 && "expression"@.len() == 10);
}

/// The severity that a word names.
pub open spec fn severity_of(j: JsonView) -> Option<DiagnosticSeverity> {
    match j {
        JsonView::String(s) => if s == "error"@ {
            Some(DiagnosticSeverity::Error)
        } else if s == "warning"@ {
            Some(DiagnosticSeverity::Warning)
        } else {
            None
        },
        _ => None,
    }
}

/// The severity that a word names.
pub fn severity_from_json(j: &JsonValue) -> (r: Option<DiagnosticSeverity>)
    ensures
        r.deep_view() == severity_of(j.deep_view()),
{
    match j {
        JsonValue::String(s) => if str_eq(s.as_str(), "error") {
            Some(DiagnosticSeverity::Error)
        } else if str_eq(s.as_str(), "warning") {
            Some(DiagnosticSeverity::Warning)
        } else {
            None
        },
        _ => None,
    }
}

/// The word of a severity names that severity.
pub proof fn lemma_severity_round(s: DiagnosticSeverity)
    ensures
        severity_of(JsonView::String(severity_word(s))) == Some(s),
{
    reveal_strlit("error");
    reveal_strlit("warning");
    assert("error"@.len() == 5 && "warning"@.len() == 7);
}

/// The family of element that a word names.
pub open spec fn model_type_of(j: JsonView) -> Option<ModelType> {
    match j {
        JsonView::String(s) => if s == "model"@ {
            Some(ModelType::Model)
        } else if s == "view"@ {
            Some(ModelType::View)
        } else if s == "interface"@ {
            Some(ModelType::Interface)
        } else if s == "enum"@ {
            Some(ModelType::Enum)
        } else {
            None
        },
        _ => None,
    }
}

/// The family of element that a word names.
pub fn model_type_from_json(j: &JsonValue) -> (r: Option<ModelType>)
    ensures
        r.deep_view() == model_type_of(j.deep_view()),
{
    match j {
        JsonValue::String(s) => if str_eq(s.as_str(), "model") {
            Some(ModelType::Model)
        } else if str_eq(s.as_str(), "view") {
            Some(ModelType::View)
        } else if str_eq(s.as_str(), "interface") {
            Some(ModelType::Interface)
        } else if str_eq(s.as_str(), "enum") {
            Some(ModelType::Enum)
        } else {
            None
        },
        _ => None,
    }
}

/// The word of a family of element names that family.
pub proof fn lemma_model_type_round(t: ModelType)
    ensures
        model_type_of(JsonView::String(type_word(t))) == Some(t),
{
    reveal_strlit("model");
    reveal_strlit("view");
    reveal_strlit("interface");
    reveal_strlit("enum");
    assert("model"@.len() == 5 && "view"@.len() == 4 && "interface"@.len() == 9);
    assert("view"@[0] == 'v' && "enum"@[0] == 'e');
}

/// The texts of a list of JSON strings.
pub open spec fn texts_of(items: Seq<JsonView>) -> Option<Seq<Seq<char>>> {
    if forall|i: int| 0 <= i < items.len() ==> (#[trigger] text_of(items[i])) is Some {
        Some(Seq::new(items.len(), |i: int| text_of(items[i])->0))
    } else {
        None
    }
}

/// The texts of a JSON list of strings.
pub open spec fn strings_of(j: JsonView) -> Option<Seq<Seq<char>>> {
    match j {
        JsonView::Array(items) => texts_of(items),
        _ => None,
    }
}

/// The texts of a JSON list of strings.
pub fn strings_from_json(j: &JsonValue) -> (r: Option<Vec<String>>)
    ensures
        r.deep_view() == strings_of(j.deep_view()),
{
    match j {
        JsonValue::Array(items) => {
            proof {
                lemma_json_array(*items);
            }
            let mut out: Vec<String> = Vec::new();
            let mut i: usize = 0;
            while i < items.len()
                invariant
                    i <= items@.len(),
                    out@.len() == i,
                    j.deep_view() == JsonView::Array(items.deep_view()),
                    forall|k: int|
                        0 <= k < i ==> text_of(#[trigger] items.deep_view()[k]) == Some(out@[k]@),
                decreases items.len() - i,
            {
                match text_from_json(&items[i]) {
                    Some(x) => {
                        out.push(x);
                    },
                    None => {
                        proof {
                            assert(text_of(items.deep_view()[i as int]) is None);
                        }
                        return None;
                    },
                }
                i += 1;
            }
            proof {
                assert(out.deep_view() =~= texts_of(items.deep_view())->0);
            }
            Some(out)
        },
        _ => None,
    }
}

/// A list of texts is read back from its JSON form.
pub proof fn lemma_strings_round(list: Seq<Seq<char>>)
    ensures
        strings_of(JsonView::Array(string_values(list))) == Some(list),
{
    assert(texts_of(string_values(list))->0 =~= list);
}

/// The argument that a JSON value stands for: a string, a number with its
/// literal, or a boolean.
pub open spec fn arg_of(j: JsonView) -> Option<AttrArgView> {
    match j {
        JsonView::String(s) => Some(AttrArgView::String(s)),
        JsonView::Number(n) => Some(AttrArgView::Number(n)),
        JsonView::Bool(b) => Some(AttrArgView::Bool(b)),
        _ => None,
    }
}

/// The argument that a JSON value stands for.
pub fn arg_from_json(j: &JsonValue) -> (r: Option<AttrArgValue>)
    ensures
        r.deep_view() == arg_of(j.deep_view()),
{
    match j {
        JsonValue::String(s) => Some(AttrArgValue::String(s.clone())),
        JsonValue::Number(n) => Some(AttrArgValue::Number(n.clone())),
        JsonValue::Bool(b) => Some(AttrArgValue::Bool(*b)),
        _ => None,
    }
}

/// The arguments that the items of a list stand for.
pub open spec fn arg_list_of(items: Seq<JsonView>) -> Option<Seq<AttrArgView>> {
    if forall|i: int| 0 <= i < items.len() ==> (#[trigger] arg_of(items[i])) is Some {
        Some(Seq::new(items.len(), |i: int| arg_of(items[i])->0))
    } else {
        None
    }
}

/// The arguments that a JSON list stands for.
pub open spec fn args_of(j: JsonView) -> Option<Seq<AttrArgView>> {
    match j {
        JsonView::Array(items) => arg_list_of(items),
        _ => None,
    }
}

/// The arguments that a JSON list stands for.
pub fn args_from_json(j: &JsonValue) -> (r: Option<Vec<AttrArgValue>>)
    ensures
        r.deep_view() == args_of(j.deep_view()),
{
    match j {
        JsonValue::Array(items) => {
            proof {
                lemma_json_array(*items);
            }
            let mut out: Vec<AttrArgValue> = Vec::new();
            let mut i: usize = 0;
            while i < items.len()
                invariant
                    i <= items@.len(),
                    out@.len() == i,
                    j.deep_view() == JsonView::Array(items.deep_view()),
                    forall|k: int|
                        0 <= k < i ==> arg_of(#[trigger] items.deep_view()[k]) == Some(
                            out@[k].deep_view(),
                        ),
                decreases items.len() - i,
            {
                match arg_from_json(&items[i]) {
                    Some(x) => {
                        out.push(x);
                    },
                    None => {
                        proof {
                            assert(arg_of(items.deep_view()[i as int]) is None);
                        }
                        return None;
                    },
                }
                i += 1;
            }
            proof {
                assert(out.deep_view() =~= arg_list_of(items.deep_view())->0);
            }
            Some(out)
        },
        _ => None,
    }
}

/// A list of arguments is read back from its JSON form.
pub proof fn lemma_args_round(list: Seq<AttrArgView>)
    ensures
        args_of(JsonView::Array(arg_json_list(list))) == Some(list),
{
    assert forall|i: int| 0 <= i < list.len() implies arg_of(
        #[trigger] arg_json_list(list)[i],
    ) == Some(list[i]) by {
        assert(arg_json_list(list)[i] == arg_json(list[i]));
    }
    assert(arg_list_of(arg_json_list(list))->0 =~= list);
}

/// The parameter that a JSON value stands for: a string, or a number with
/// its literal.
pub open spec fn param_of(j: JsonView) -> Option<ParamView> {
    match j {
        JsonView::String(s) => Some(ParamView::String(s)),
        JsonView::Number(n) => Some(ParamView::Number(n)),
        _ => None,
    }
}

/// The parameter that a JSON value stands for.
pub fn param_from_json(j: &JsonValue) -> (r: Option<ParamValue>)
    ensures
        r.deep_view() == param_of(j.deep_view()),
{
    match j {
        JsonValue::String(s) => Some(ParamValue::String(s.clone())),
        JsonValue::Number(n) => Some(ParamValue::Number(n.clone())),
        _ => None,
    }
}

/// The parameters that the items of a list stand for.
pub open spec fn param_list_of(items: Seq<JsonView>) -> Option<Seq<ParamView>> {
    if forall|i: int| 0 <= i < items.len() ==> (#[trigger] param_of(items[i])) is Some {
        Some(Seq::new(items.len(), |i: int| param_of(items[i])->0))
    } else {
        None
    }
}

/// The parameters that a JSON list stands for.
pub open spec fn params_of(j: JsonView) -> Option<Seq<ParamView>> {
    match j {
        JsonView::Array(items) => param_list_of(items),
        _ => None,
    }
}

/// The parameters that a JSON list stands for.
pub fn params_from_json(j: &JsonValue) -> (r: Option<Vec<ParamValue>>)
    ensures
        r.deep_view() == params_of(j.deep_view()),
{
    match j {
        JsonValue::Array(items) => {
            proof {
                lemma_json_array(*items);
            }
            let mut out: Vec<ParamValue> = Vec::new();
            let mut i: usize = 0;
            while i < items.len()
                invariant
                    i <= items@.len(),
                    out@.len() == i,
                    j.deep_view() == JsonView::Array(items.deep_view()),
                    forall|k: int|
                        0 <= k < i ==> param_of(#[trigger] items.deep_view()[k]) == Some(
                            out@[k].deep_view(),
                        ),
                decreases items.len() - i,
            {
                match param_from_json(&items[i]) {
                    Some(x) => {
                        out.push(x);
                    },
                    None => {
                        proof {
                            assert(param_of(items.deep_view()[i as int]) is None);
                        }
                        return None;
                    },
                }
                i += 1;
            }
            proof {
                assert(out.deep_view() =~= param_list_of(items.deep_view())->0);
            }
            Some(out)
        },
        _ => None,
    }
}

/// A list of parameters is read back from its JSON form.
pub proof fn lemma_params_round(list: Seq<ParamView>)
    ensures
        params_of(JsonView::Array(param_json_list(list))) == Some(list),
{
    assert forall|i: int| 0 <= i < list.len() implies param_of(
        #[trigger] param_json_list(list)[i],
    ) == Some(list[i]) by {
        assert(param_json_list(list)[i] == param_json(list[i]));
    }
    assert(param_list_of(param_json_list(list))->0 =~= list);
}

/// The two ends of a range: a JSON list of two numbers.
pub open spec fn range_of(j: JsonView) -> Option<(Seq<char>, Seq<char>)> {
    match j {
        JsonView::Array(items) => if items.len() == 2 {
            match (items[0], items[1]) {
                (JsonView::Number(a), JsonView::Number(b)) => Some((a, b)),
                _ => None,
            }
        } else {
            None
        },
        _ => None,
    }
}

/// The two ends of a range: a JSON list of two numbers.
pub fn range_from_json(j: &JsonValue) -> (r: Option<(NumberLit, NumberLit)>)
    ensures
        r.deep_view() == range_of(j.deep_view()),
{
    match j {
        JsonValue::Array(items) => {
            proof {
                lemma_json_array(*items);
            }
            if items.len() == 2 {
                match (&items[0], &items[1]) {
                    (JsonValue::Number(a), JsonValue::Number(b)) => Some((a.clone(), b.clone())),
                    _ => None,
                }
            } else {
                None
            }
        },
        _ => None,
    }
}

/// What part 1 of the members of a [`SourceLocation`] holds, where each of
/// them can be read.
pub open spec fn source_location_read_1(
    m: Seq<(Seq<char>, JsonView)>,
) -> Option<(Seq<char>, usize, usize)> {
    let file = match member(m, "file"@) {
        Some(j) => text_of(j),
        None => None,
    };
    let line = match member(m, "line"@) {
        Some(j) => count_of(j),
        None => None,
    };
    let col = match member(m, "col"@) {
        Some(j) => count_of(j),
        None => None,
    };
    if file is Some && line is Some && col is Some {
        Some((file->0, line->0, col->0))
    } else {
        None
    }
}

/// The [`SourceLocation`] that a JSON value stands for: an object in which
/// every key that must be
/// there has a value of the right shape, and every other key has one or is
/// missing.
pub open spec fn source_location_of_json(j: JsonView) -> Option<SourceLocationView> {
    match j {
        JsonView::Object(m) => match (source_location_read_1(m),) {
            (Some(a),) => Some(
                (SourceLocationView {
                    file: a.0,
                    line: a.1,
                    col: a.2,
                }),
            ),
            _ => None,
        },
        _ => None,
    }
}

fn source_location_get_1(m: &Vec<JsonMember>) -> (r: Option<(String, usize, usize)>)
    ensures
        r.deep_view() == source_location_read_1(m.deep_view()),
{
    let file = match get(m, "file") {
        Some(j) => match text_from_json(j) {
            Some(x) => x,
            None => {
                return None;
            },
        },
        None => {
            return None;
        },
    };
    let line = match get(m, "line") {
        Some(j) => match count_from_json(j) {
            Some(x) => x,
            None => {
                return None;
            },
        },
        None => {
            return None;
        },
    };
    let col = match get(m, "col") {
        Some(j) => match count_from_json(j) {
            Some(x) => x,
            None => {
                return None;
            },
        },
        None => {
            return None;
        },
    };
    Some((file, line, col))
}

/// Reads a [`SourceLocation`] from its JSON form.
pub fn source_location_from_json(j: &JsonValue) -> (r: Option<SourceLocation>)
    ensures
        r.deep_view() == source_location_of_json(j.deep_view()),
{
    match j {
        JsonValue::Object(m) => {
            proof {
                lemma_json_object(*m);
            }
            let a = match source_location_get_1(m) {
                Some(x) => x,
                None => {
                    return None;
                },
            };
            Some(
                SourceLocation {
                    file: a.0,
                    line: a.1,
                    col: a.2,
                },
            )
        },
        _ => None,
    }
}

/// The lengths and the letters that tell the keys of a [`SourceLocation`]
/// apart.
pub proof fn lemma_source_location_keys()
    ensures
        "file"@.len() == 4,
        "line"@.len() == 4,
        "col"@.len() == 3,
        "file"@[0] == 'f',
        "line"@[0] == 'l',
{
    reveal_strlit("file");
    reveal_strlit("line");
    reveal_strlit("col");
}

/// Part 1 of a [`SourceLocation`] is read back from the members of its JSON
/// form.
pub proof fn lemma_source_location_read_1(v: SourceLocationView)
    ensures
        source_location_read_1(source_location_members(v)) == Some((v.file, v.line, v.col)),
{
    let m = source_location_members(v);
    assert(member(m, "file"@) == Some(JsonView::String(v.file))) by {
        lemma_member_rules();
        lemma_source_location_keys();
    }
    assert(member(m, "line"@) == Some(JsonView::Int(v.line as int))) by {
        lemma_member_rules();
        lemma_source_location_keys();
    }
    assert(member(m, "col"@) == Some(JsonView::Int(v.col as int))) by {
        lemma_member_rules();
        lemma_source_location_keys();
    }
}

/// A [`SourceLocation`] is read back from its JSON form.
pub proof fn lemma_source_location_round(v: SourceLocationView)
    ensures
        source_location_of_json(source_location_json(v)) == Some(v),
{
    lemma_source_location_read_1(v);
}

/// What part 1 of the members of a [`FieldAttribute`] holds, where each of
/// them can be read.
pub open spec fn field_attribute_read_1(
    m: Seq<(Seq<char>, JsonView)>,
) -> Option<(Seq<char>, Option<Seq<AttrArgView>>, Option<Seq<char>>, Option<bool>)> {
    let name = match member(m, "name"@) {
        Some(j) => text_of(j),
        None => None,
    };
    let args = match member(m, "args"@) {
        Some(j) => match args_of(j) {
            Some(x) => Some(Some(x)),
            None => None,
        },
        None => Some(None),
    };
    let cascade = match member(m, "cascade"@) {
        Some(j) => match text_of(j) {
            Some(x) => Some(Some(x)),
            None => None,
        },
        None => Some(None),
    };
    let is_standard = match member(m, "isStandard"@) {
        Some(j) => match bool_of(j) {
            Some(x) => Some(Some(x)),
            None => None,
        },
        None => Some(None),
    };
    if name is Some && args is Some && cascade is Some && is_standard is Some {
        Some((name->0, args->0, cascade->0, is_standard->0))
    } else {
        None
    }
}

/// What part 2 of the members of a [`FieldAttribute`] holds, where each of
/// them can be read.
pub open spec fn field_attribute_read_2(m: Seq<(Seq<char>, JsonView)>) -> Option<(Option<bool>,)> {
    let is_registered = match member(m, "isRegistered"@) {
        Some(j) => match bool_of(j) {
            Some(x) => Some(Some(x)),
            None => None,
        },
        None => Some(None),
    };
    if is_registered is Some {
        Some((is_registered->0,))
    } else {
        None
    }
}

/// The [`FieldAttribute`] that a JSON value stands for: an object in which
/// every key that must be
/// there has a value of the right shape, and every other key has one or is
/// missing.
pub open spec fn field_attribute_of_json(j: JsonView) -> Option<FieldAttributeView> {
    match j {
        JsonView::Object(m) => match (field_attribute_read_1(m), field_attribute_read_2(m)) {
            (Some(a), Some(b)) => Some(
                (FieldAttributeView {
                    name: a.0,
                    args: a.1,
                    cascade: a.2,
                    is_standard: a.3,
                    is_registered: b.0,
                }),
            ),
            _ => None,
        },
        _ => None,
    }
}

/// The list of [`FieldAttribute`] that the items stand for, where each of
/// them stands for one.
pub open spec fn field_attribute_list_of(items: Seq<JsonView>) -> Option<Seq<FieldAttributeView>> {
    if forall|i: int| 0 <= i < items.len() ==> (#[trigger] field_attribute_of_json(items[i])) is Some {
        Some(Seq::new(items.len(), |i: int| field_attribute_of_json(items[i])->0))
    } else {
        None
    }
}

/// The list of [`FieldAttribute`] that a JSON list stands for.
pub open spec fn field_attribute_list_of_json(j: JsonView) -> Option<Seq<FieldAttributeView>> {
    match j {
        JsonView::Array(items) => field_attribute_list_of(items),
        _ => None,
    }
}

fn field_attribute_get_1(
    m: &Vec<JsonMember>,
) -> (r: Option<(String, Option<Vec<AttrArgValue>>, Option<String>, Option<bool>)>)
    ensures
        r.deep_view() == field_attribute_read_1(m.deep_view()),
{
    let name = match get(m, "name") {
        Some(j) => match text_from_json(j) {
            Some(x) => x,
            None => {
                return None;
            },
        },
        None => {
            return None;
        },
    };
    let args = match get(m, "args") {
        Some(j) => match args_from_json(j) {
            Some(x) => Some(x),
            None => {
                return None;
            },
        },
        None => None,
    };
    let cascade = match get(m, "cascade") {
        Some(j) => match text_from_json(j) {
            Some(x) => Some(x),
            None => {
                return None;
            },
        },
        None => None,
    };
    let is_standard = match get(m, "isStandard") {
        Some(j) => match bool_from_json(j) {
            Some(x) => Some(x),
            None => {
                return None;
            },
        },
        None => None,
    };
    Some((name, args, cascade, is_standard))
}

fn field_attribute_get_2(m: &Vec<JsonMember>) -> (r: Option<(Option<bool>,)>)
    ensures
        r.deep_view() == field_attribute_read_2(m.deep_view()),
{
    let is_registered = match get(m, "isRegistered") {
        Some(j) => match bool_from_json(j) {
            Some(x) => Some(x),
            None => {
                return None;
            },
        },
        None => None,
    };
    Some((is_registered,))
}

/// Reads a [`FieldAttribute`] from its JSON form.
pub fn field_attribute_from_json(j: &JsonValue) -> (r: Option<FieldAttribute>)
    ensures
        r.deep_view() == field_attribute_of_json(j.deep_view()),
{
    match j {
        JsonValue::Object(m) => {
            proof {
                lemma_json_object(*m);
            }
            let a = match field_attribute_get_1(m) {
                Some(x) => x,
                None => {
                    return None;
                },
            };
            let b = match field_attribute_get_2(m) {
                Some(x) => x,
                None => {
                    return None;
                },
            };
            Some(
                FieldAttribute {
                    name: a.0,
                    args: a.1,
                    cascade: a.2,
                    is_standard: a.3,
                    is_registered: b.0,
                },
            )
        },
        _ => None,
    }
}

/// Reads a list of [`FieldAttribute`] from the JSON forms of its items.
pub fn field_attribute_list_from(items: &Vec<JsonValue>) -> (r: Option<Vec<FieldAttribute>>)
    ensures
        r.deep_view() == field_attribute_list_of(items.deep_view()),
{
    let mut out: Vec<FieldAttribute> = Vec::new();
    let mut i: usize = 0;
    while i < items.len()
        invariant
            i <= items@.len(),
            out@.len() == i,
            forall|k: int|
                0 <= k < i ==> field_attribute_of_json(#[trigger] items.deep_view()[k]) == Some(
                    out@[k].deep_view(),
                ),
        decreases items.len() - i,
    {
        match field_attribute_from_json(&items[i]) {
            Some(x) => {
                out.push(x);
            },
            None => {
                proof {
                    assert(field_attribute_of_json(items.deep_view()[i as int]) is None);
                }
                return None;
            },
        }
        i += 1;
    }
    proof {
        assert(out.deep_view() =~= field_attribute_list_of(items.deep_view())->0);
    }
    Some(out)
}

/// Reads a list of [`FieldAttribute`] from its JSON form.
pub fn field_attribute_list_from_json(j: &JsonValue) -> (r: Option<Vec<FieldAttribute>>)
    ensures
        r.deep_view() == field_attribute_list_of_json(j.deep_view()),
{
    match j {
        JsonValue::Array(items) => {
            proof {
                lemma_json_array(*items);
            }
            field_attribute_list_from(items)
        },
        _ => None,
    }
}

/// The lengths and the letters that tell the keys of a [`FieldAttribute`]
/// apart.
pub proof fn lemma_field_attribute_keys()
    ensures
        "name"@.len() == 4,
        "args"@.len() == 4,
        "cascade"@.len() == 7,
        "isStandard"@.len() == 10,
        "isRegistered"@.len() == 12,
        "name"@[0] == 'n',
        "args"@[0] == 'a',
{
    reveal_strlit("name");
    reveal_strlit("args");
    reveal_strlit("cascade");
    reveal_strlit("isStandard");
    reveal_strlit("isRegistered");
}

/// Part 1 of a [`FieldAttribute`] is read back from the members of its JSON
/// form.
pub proof fn lemma_field_attribute_read_1(v: FieldAttributeView)
    ensures
        field_attribute_read_1(field_attribute_members(v)) == Some(
            (v.name, v.args, v.cascade, v.is_standard),
        ),
{
    let m = field_attribute_members(v);
    assert(member(m, "name"@) == Some(JsonView::String(v.name))) by {
        lemma_member_rules();
        lemma_field_attribute_keys();
    }
    assert(member(m, "args"@) == match v.args {
        Some(x) => Some(JsonView::Array(arg_json_list(x))),
        None => None,
    }) by {
        lemma_member_rules();
        lemma_field_attribute_keys();
    }
    assert(member(m, "cascade"@) == match v.cascade {
        Some(x) => Some(JsonView::String(x)),
        None => None,
    }) by {
        lemma_member_rules();
        lemma_field_attribute_keys();
    }
    assert(member(m, "isStandard"@) == match v.is_standard {
        Some(x) => Some(JsonView::Bool(x)),
        None => None,
    }) by {
        lemma_member_rules();
        lemma_field_attribute_keys();
    }
    if v.args is Some {
        lemma_args_round(v.args->0);
    }
}

/// Part 2 of a [`FieldAttribute`] is read back from the members of its JSON
/// form.
pub proof fn lemma_field_attribute_read_2(v: FieldAttributeView)
    ensures
        field_attribute_read_2(field_attribute_members(v)) == Some((v.is_registered,)),
{
    let m = field_attribute_members(v);
    assert(member(m, "isRegistered"@) == match v.is_registered {
        Some(x) => Some(JsonView::Bool(x)),
        None => None,
    }) by {
        lemma_member_rules();
        lemma_field_attribute_keys();
    }
}

/// A [`FieldAttribute`] is read back from its JSON form.
pub proof fn lemma_field_attribute_round(v: FieldAttributeView)
    ensures
        field_attribute_of_json(field_attribute_json(v)) == Some(v),
{
    lemma_field_attribute_read_1(v);
    lemma_field_attribute_read_2(v);
}

/// A list of [`FieldAttribute`] is read back from its JSON form.
pub proof fn lemma_field_attribute_list_round(list: Seq<FieldAttributeView>)
    ensures
        field_attribute_list_of_json(JsonView::Array(field_attribute_json_list(list))) == Some(list),
{
    let items = field_attribute_json_list(list);
    assert forall|i: int| 0 <= i < items.len() implies field_attribute_of_json(#[trigger] items[i]) == Some(
        list[i],
    ) by {
        lemma_field_attribute_round(list[i]);
    }
    assert(field_attribute_list_of(items)->0 =~= list);
}

/// What part 1 of the members of a [`CustomAttributeParsed`] holds, where
/// each of them can be read.
pub open spec fn custom_attribute_parsed_read_1(
    m: Seq<(Seq<char>, JsonView)>,
) -> Option<(Seq<char>, Seq<AttrArgView>)> {
    let name = match member(m, "name"@) {
        Some(j) => text_of(j),
        None => None,
    };
    let arguments = match member(m, "arguments"@) {
        Some(j) => args_of(j),
        None => None,
    };
    if name is Some && arguments is Some {
        Some((name->0, arguments->0))
    } else {
        None
    }
}

/// The [`CustomAttributeParsed`] that a JSON value stands for: an object in
/// which every key that must be
/// there has a value of the right shape, and every other key has one or is
/// missing.
pub open spec fn custom_attribute_parsed_of_json(j: JsonView) -> Option<CustomAttributeParsedView> {
    match j {
        JsonView::Object(m) => match (custom_attribute_parsed_read_1(m),) {
            (Some(a),) => Some(
                (CustomAttributeParsedView {
                    name: a.0,
                    arguments: a.1,
                }),
            ),
            _ => None,
        },
        _ => None,
    }
}

fn custom_attribute_parsed_get_1(m: &Vec<JsonMember>) -> (r: Option<(String, Vec<AttrArgValue>)>)
    ensures
        r.deep_view() == custom_attribute_parsed_read_1(m.deep_view()),
{
    let name = match get(m, "name") {
        Some(j) => match text_from_json(j) {
            Some(x) => x,
            None => {
                return None;
            },
        },
        None => {
            return None;
        },
    };
    let arguments = match get(m, "arguments") {
        Some(j) => match args_from_json(j) {
            Some(x) => x,
            None => {
                return None;
            },
        },
        None => {
            return None;
        },
    };
    Some((name, arguments))
}

/// Reads a [`CustomAttributeParsed`] from its JSON form.
pub fn custom_attribute_parsed_from_json(j: &JsonValue) -> (r: Option<CustomAttributeParsed>)
    ensures
        r.deep_view() == custom_attribute_parsed_of_json(j.deep_view()),
{
    match j {
        JsonValue::Object(m) => {
            proof {
                lemma_json_object(*m);
            }
            let a = match custom_attribute_parsed_get_1(m) {
                Some(x) => x,
                None => {
                    return None;
                },
            };
            Some(
                CustomAttributeParsed {
                    name: a.0,
                    arguments: a.1,
                },
            )
        },
        _ => None,
    }
}

/// The lengths and the letters that tell the keys of a
/// [`CustomAttributeParsed`] apart.
pub proof fn lemma_custom_attribute_parsed_keys()
    ensures
        "name"@.len() == 4,
        "arguments"@.len() == 9,
{
    reveal_strlit("name");
    reveal_strlit("arguments");
}

/// Part 1 of a [`CustomAttributeParsed`] is read back from the members of its
/// JSON form.
pub proof fn lemma_custom_attribute_parsed_read_1(v: CustomAttributeParsedView)
    ensures
        custom_attribute_parsed_read_1(custom_attribute_parsed_members(v)) == Some(
            (v.name, v.arguments),
        ),
{
    let m = custom_attribute_parsed_members(v);
    assert(member(m, "name"@) == Some(JsonView::String(v.name))) by {
        lemma_member_rules();
        lemma_custom_attribute_parsed_keys();
    }
    assert(member(m, "arguments"@) == Some(JsonView::Array(arg_json_list(v.arguments)))) by {
        lemma_member_rules();
        lemma_custom_attribute_parsed_keys();
    }
    lemma_args_round(v.arguments);
}

/// A [`CustomAttributeParsed`] is read back from its JSON form.
pub proof fn lemma_custom_attribute_parsed_round(v: CustomAttributeParsedView)
    ensures
        custom_attribute_parsed_of_json(custom_attribute_parsed_json(v)) == Some(v),
{
    lemma_custom_attribute_parsed_read_1(v);
}

/// What part 1 of the members of a [`CustomAttribute`] holds, where each of
/// them can be read.
pub open spec fn custom_attribute_read_1(
    m: Seq<(Seq<char>, JsonView)>,
) -> Option<(Seq<char>, Seq<char>, Option<CustomAttributeParsedView>)> {
    let content = match member(m, "content"@) {
        Some(j) => text_of(j),
        None => None,
    };
    let raw = match member(m, "raw"@) {
        Some(j) => text_of(j),
        None => None,
    };
    let parsed = match member(m, "parsed"@) {
        Some(j) => match custom_attribute_parsed_of_json(j) {
            Some(x) => Some(Some(x)),
            None => None,
        },
        None => Some(None),
    };
    if content is Some && raw is Some && parsed is Some {
        Some((content->0, raw->0, parsed->0))
    } else {
        None
    }
}

/// The [`CustomAttribute`] that a JSON value stands for: an object in which
/// every key that must be
/// there has a value of the right shape, and every other key has one or is
/// missing.
pub open spec fn custom_attribute_of_json(j: JsonView) -> Option<CustomAttributeView> {
    match j {
        JsonView::Object(m) => match (custom_attribute_read_1(m),) {
            (Some(a),) => Some(
                (CustomAttributeView {
                    content: a.0,
                    raw: a.1,
                    parsed: a.2,
                }),
            ),
            _ => None,
        },
        _ => None,
    }
}

/// The list of [`CustomAttribute`] that the items stand for, where each of
/// them stands for one.
pub open spec fn custom_attribute_list_of(
    items: Seq<JsonView>,
) -> Option<Seq<CustomAttributeView>> {
    if forall|i: int| 0 <= i < items.len() ==> (#[trigger] custom_attribute_of_json(items[i])) is Some {
        Some(Seq::new(items.len(), |i: int| custom_attribute_of_json(items[i])->0))
    } else {
        None
    }
}

/// The list of [`CustomAttribute`] that a JSON list stands for.
pub open spec fn custom_attribute_list_of_json(j: JsonView) -> Option<Seq<CustomAttributeView>> {
    match j {
        JsonView::Array(items) => custom_attribute_list_of(items),
        _ => None,
    }
}

fn custom_attribute_get_1(
    m: &Vec<JsonMember>,
) -> (r: Option<(String, String, Option<CustomAttributeParsed>)>)
    ensures
        r.deep_view() == custom_attribute_read_1(m.deep_view()),
{
    let content = match get(m, "content") {
        Some(j) => match text_from_json(j) {
            Some(x) => x,
            None => {
                return None;
            },
        },
        None => {
            return None;
        },
    };
    let raw = match get(m, "raw") {
        Some(j) => match text_from_json(j) {
            Some(x) => x,
            None => {
                return None;
            },
        },
        None => {
            return None;
        },
    };
    let parsed = match get(m, "parsed") {
        Some(j) => match custom_attribute_parsed_from_json(j) {
            Some(x) => Some(x),
            None => {
                return None;
            },
        },
        None => None,
    };
    Some((content, raw, parsed))
}

/// Reads a [`CustomAttribute`] from its JSON form.
pub fn custom_attribute_from_json(j: &JsonValue) -> (r: Option<CustomAttribute>)
    ensures
        r.deep_view() == custom_attribute_of_json(j.deep_view()),
{
    match j {
        JsonValue::Object(m) => {
            proof {
                lemma_json_object(*m);
            }
            let a = match custom_attribute_get_1(m) {
                Some(x) => x,
                None => {
                    return None;
                },
            };
            Some(
                CustomAttribute {
                    content: a.0,
                    raw: a.1,
                    parsed: a.2,
                },
            )
        },
        _ => None,
    }
}

/// Reads a list of [`CustomAttribute`] from the JSON forms of its items.
pub fn custom_attribute_list_from(items: &Vec<JsonValue>) -> (r: Option<Vec<CustomAttribute>>)
    ensures
        r.deep_view() == custom_attribute_list_of(items.deep_view()),
{
    let mut out: Vec<CustomAttribute> = Vec::new();
    let mut i: usize = 0;
    while i < items.len()
        invariant
            i <= items@.len(),
            out@.len() == i,
            forall|k: int|
                0 <= k < i ==> custom_attribute_of_json(#[trigger] items.deep_view()[k]) == Some(
                    out@[k].deep_view(),
                ),
        decreases items.len() - i,
    {
        match custom_attribute_from_json(&items[i]) {
            Some(x) => {
                out.push(x);
            },
            None => {
                proof {
                    assert(custom_attribute_of_json(items.deep_view()[i as int]) is None);
                }
                return None;
            },
        }
        i += 1;
    }
    proof {
        assert(out.deep_view() =~= custom_attribute_list_of(items.deep_view())->0);
    }
    Some(out)
}

/// Reads a list of [`CustomAttribute`] from its JSON form.
pub fn custom_attribute_list_from_json(j: &JsonValue) -> (r: Option<Vec<CustomAttribute>>)
    ensures
        r.deep_view() == custom_attribute_list_of_json(j.deep_view()),
{
    match j {
        JsonValue::Array(items) => {
            proof {
                lemma_json_array(*items);
            }
            custom_attribute_list_from(items)
        },
        _ => None,
    }
}

/// The lengths and the letters that tell the keys of a [`CustomAttribute`]
/// apart.
pub proof fn lemma_custom_attribute_keys()
    ensures
        "content"@.len() == 7,
        "raw"@.len() == 3,
        "parsed"@.len() == 6,
{
    reveal_strlit("content");
    reveal_strlit("raw");
    reveal_strlit("parsed");
}

/// Part 1 of a [`CustomAttribute`] is read back from the members of its JSON
/// form.
pub proof fn lemma_custom_attribute_read_1(v: CustomAttributeView)
    ensures
        custom_attribute_read_1(custom_attribute_members(v)) == Some((v.content, v.raw, v.parsed)),
{
    let m = custom_attribute_members(v);
    assert(member(m, "content"@) == Some(JsonView::String(v.content))) by {
        lemma_member_rules();
        lemma_custom_attribute_keys();
    }
    assert(member(m, "raw"@) == Some(JsonView::String(v.raw))) by {
        lemma_member_rules();
        lemma_custom_attribute_keys();
    }
    assert(member(m, "parsed"@) == match v.parsed {
        Some(x) => Some(custom_attribute_parsed_json(x)),
        None => None,
    }) by {
        lemma_member_rules();
        lemma_custom_attribute_keys();
    }
    if v.parsed is Some {
        lemma_custom_attribute_parsed_round(v.parsed->0);
    }
}

/// A [`CustomAttribute`] is read back from its JSON form.
pub proof fn lemma_custom_attribute_round(v: CustomAttributeView)
    ensures
        custom_attribute_of_json(custom_attribute_json(v)) == Some(v),
{
    lemma_custom_attribute_read_1(v);
}

/// A list of [`CustomAttribute`] is read back from its JSON form.
pub proof fn lemma_custom_attribute_list_round(list: Seq<CustomAttributeView>)
    ensures
        custom_attribute_list_of_json(JsonView::Array(custom_attribute_json_list(list))) == Some(list),
{
    let items = custom_attribute_json_list(list);
    assert forall|i: int| 0 <= i < items.len() implies custom_attribute_of_json(#[trigger] items[i]) == Some(
        list[i],
    ) by {
        lemma_custom_attribute_round(list[i]);
    }
    assert(custom_attribute_list_of(items)->0 =~= list);
}

/// What part 1 of the members of a [`EnumValue`] holds, where each of them
/// can be read.
pub open spec fn enum_value_read_1(
    m: Seq<(Seq<char>, JsonView)>,
) -> Option<(Seq<char>, Option<Seq<char>>, Option<Seq<char>>, Option<JsonView>)> {
    let name = match member(m, "name"@) {
        Some(j) => text_of(j),
        None => None,
    };
    let description = match member(m, "description"@) {
        Some(j) => match text_of(j) {
            Some(x) => Some(Some(x)),
            None => None,
        },
        None => Some(None),
    };
    let value_type = match member(m, "type"@) {
        Some(j) => match text_of(j) {
            Some(x) => Some(Some(x)),
            None => None,
        },
        None => Some(None),
    };
    let value = match member(m, "value"@) {
        Some(j) => match json_of(j) {
            Some(x) => Some(Some(x)),
            None => None,
        },
        None => Some(None),
    };
    if name is Some && description is Some && value_type is Some && value is Some {
        Some((name->0, description->0, value_type->0, value->0))
    } else {
        None
    }
}

/// The [`EnumValue`] that a JSON value stands for: an object in which every
/// key that must be
/// there has a value of the right shape, and every other key has one or is
/// missing.
pub open spec fn enum_value_of_json(j: JsonView) -> Option<EnumValueView> {
    match j {
        JsonView::Object(m) => match (enum_value_read_1(m),) {
            (Some(a),) => Some(
                (EnumValueView {
                    name: a.0,
                    description: a.1,
                    value_type: a.2,
                    value: a.3,
                }),
            ),
            _ => None,
        },
        _ => None,
    }
}

/// The list of [`EnumValue`] that the items stand for, where each of them
/// stands for one.
pub open spec fn enum_value_list_of(items: Seq<JsonView>) -> Option<Seq<EnumValueView>> {
    if forall|i: int| 0 <= i < items.len() ==> (#[trigger] enum_value_of_json(items[i])) is Some {
        Some(Seq::new(items.len(), |i: int| enum_value_of_json(items[i])->0))
    } else {
        None
    }
}

/// The list of [`EnumValue`] that a JSON list stands for.
pub open spec fn enum_value_list_of_json(j: JsonView) -> Option<Seq<EnumValueView>> {
    match j {
        JsonView::Array(items) => enum_value_list_of(items),
        _ => None,
    }
}

fn enum_value_get_1(
    m: &Vec<JsonMember>,
) -> (r: Option<(String, Option<String>, Option<String>, Option<JsonValue>)>)
    ensures
        r.deep_view() == enum_value_read_1(m.deep_view()),
{
    let name = match get(m, "name") {
        Some(j) => match text_from_json(j) {
            Some(x) => x,
            None => {
                return None;
            },
        },
        None => {
            return None;
        },
    };
    let description = match get(m, "description") {
        Some(j) => match text_from_json(j) {
            Some(x) => Some(x),
            None => {
                return None;
            },
        },
        None => None,
    };
    let value_type = match get(m, "type") {
        Some(j) => match text_from_json(j) {
            Some(x) => Some(x),
            None => {
                return None;
            },
        },
        None => None,
    };
    let value = match get(m, "value") {
        Some(j) => match json_from_json(j) {
            Some(x) => Some(x),
            None => {
                return None;
            },
        },
        None => None,
    };
    Some((name, description, value_type, value))
}

/// Reads a [`EnumValue`] from its JSON form.
pub fn enum_value_from_json(j: &JsonValue) -> (r: Option<EnumValue>)
    ensures
        r.deep_view() == enum_value_of_json(j.deep_view()),
{
    match j {
        JsonValue::Object(m) => {
            proof {
                lemma_json_object(*m);
            }
            let a = match enum_value_get_1(m) {
                Some(x) => x,
                None => {
                    return None;
                },
            };
            Some(
                EnumValue {
                    name: a.0,
                    description: a.1,
                    value_type: a.2,
                    value: a.3,
                },
            )
        },
        _ => None,
    }
}

/// Reads a list of [`EnumValue`] from the JSON forms of its items.
pub fn enum_value_list_from(items: &Vec<JsonValue>) -> (r: Option<Vec<EnumValue>>)
    ensures
        r.deep_view() == enum_value_list_of(items.deep_view()),
{
    let mut out: Vec<EnumValue> = Vec::new();
    let mut i: usize = 0;
    while i < items.len()
        invariant
            i <= items@.len(),
            out@.len() == i,
            forall|k: int|
                0 <= k < i ==> enum_value_of_json(#[trigger] items.deep_view()[k]) == Some(
                    out@[k].deep_view(),
                ),
        decreases items.len() - i,
    {
        match enum_value_from_json(&items[i]) {
            Some(x) => {
                out.push(x);
            },
            None => {
                proof {
                    assert(enum_value_of_json(items.deep_view()[i as int]) is None);
                }
                return None;
            },
        }
        i += 1;
    }
    proof {
        assert(out.deep_view() =~= enum_value_list_of(items.deep_view())->0);
    }
    Some(out)
}

/// Reads a list of [`EnumValue`] from its JSON form.
pub fn enum_value_list_from_json(j: &JsonValue) -> (r: Option<Vec<EnumValue>>)
    ensures
        r.deep_view() == enum_value_list_of_json(j.deep_view()),
{
    match j {
        JsonValue::Array(items) => {
            proof {
                lemma_json_array(*items);
            }
            enum_value_list_from(items)
        },
        _ => None,
    }
}

/// The lengths and the letters that tell the keys of a [`EnumValue`] apart.
pub proof fn lemma_enum_value_keys()
    ensures
        "name"@.len() == 4,
        "description"@.len() == 11,
        "type"@.len() == 4,
        "value"@.len() == 5,
        "name"@[0] == 'n',
        "type"@[0] == 't',
{
    reveal_strlit("name");
    reveal_strlit("description");
    reveal_strlit("type");
    reveal_strlit("value");
}

/// Part 1 of a [`EnumValue`] is read back from the members of its JSON form.
pub proof fn lemma_enum_value_read_1(v: EnumValueView)
    ensures
        enum_value_read_1(enum_value_members(v)) == Some(
            (v.name, v.description, v.value_type, v.value),
        ),
{
    let m = enum_value_members(v);
    assert(member(m, "name"@) == Some(JsonView::String(v.name))) by {
        lemma_member_rules();
        lemma_enum_value_keys();
    }
    assert(member(m, "description"@) == match v.description {
        Some(x) => Some(JsonView::String(x)),
        None => None,
    }) by {
        lemma_member_rules();
        lemma_enum_value_keys();
    }
    assert(member(m, "type"@) == match v.value_type {
        Some(x) => Some(JsonView::String(x)),
        None => None,
    }) by {
        lemma_member_rules();
        lemma_enum_value_keys();
    }
    assert(member(m, "value"@) == match v.value {
        Some(x) => Some(x),
        None => None,
    }) by {
        lemma_member_rules();
        lemma_enum_value_keys();
    }
}

/// A [`EnumValue`] is read back from its JSON form.
pub proof fn lemma_enum_value_round(v: EnumValueView)
    ensures
        enum_value_of_json(enum_value_json(v)) == Some(v),
{
    lemma_enum_value_read_1(v);
}

/// A list of [`EnumValue`] is read back from its JSON form.
pub proof fn lemma_enum_value_list_round(list: Seq<EnumValueView>)
    ensures
        enum_value_list_of_json(JsonView::Array(enum_value_json_list(list))) == Some(list),
{
    let items = enum_value_json_list(list);
    assert forall|i: int| 0 <= i < items.len() implies enum_value_of_json(#[trigger] items[i]) == Some(
        list[i],
    ) by {
        lemma_enum_value_round(list[i]);
    }
    assert(enum_value_list_of(items)->0 =~= list);
}

/// What part 1 of the members of a [`LookupDef`] holds, where each of them
/// can be read.
pub open spec fn lookup_def_read_1(m: Seq<(Seq<char>, JsonView)>) -> Option<(Seq<char>,)> {
    let path = match member(m, "path"@) {
        Some(j) => text_of(j),
        None => None,
    };
    if path is Some {
        Some((path->0,))
    } else {
        None
    }
}

/// The [`LookupDef`] that a JSON value stands for: an object in which every
/// key that must be
/// there has a value of the right shape, and every other key has one or is
/// missing.
pub open spec fn lookup_def_of_json(j: JsonView) -> Option<LookupDefView> {
    match j {
        JsonView::Object(m) => match (lookup_def_read_1(m),) {
            (Some(a),) => Some(
                (LookupDefView {
                    path: a.0,
                }),
            ),
            _ => None,
        },
        _ => None,
    }
}

fn lookup_def_get_1(m: &Vec<JsonMember>) -> (r: Option<(String,)>)
    ensures
        r.deep_view() == lookup_def_read_1(m.deep_view()),
{
    let path = match get(m, "path") {
        Some(j) => match text_from_json(j) {
            Some(x) => x,
            None => {
                return None;
            },
        },
        None => {
            return None;
        },
    };
    Some((path,))
}

/// Reads a [`LookupDef`] from its JSON form.
pub fn lookup_def_from_json(j: &JsonValue) -> (r: Option<LookupDef>)
    ensures
        r.deep_view() == lookup_def_of_json(j.deep_view()),
{
    match j {
        JsonValue::Object(m) => {
            proof {
                lemma_json_object(*m);
            }
            let a = match lookup_def_get_1(m) {
                Some(x) => x,
                None => {
                    return None;
                },
            };
            Some(
                LookupDef {
                    path: a.0,
                },
            )
        },
        _ => None,
    }
}

/// The lengths and the letters that tell the keys of a [`LookupDef`] apart.
pub proof fn lemma_lookup_def_keys()
    ensures
        "path"@.len() == 4,
{
    reveal_strlit("path");
}

/// Part 1 of a [`LookupDef`] is read back from the members of its JSON form.
pub proof fn lemma_lookup_def_read_1(v: LookupDefView)
    ensures
        lookup_def_read_1(lookup_def_members(v)) == Some((v.path,)),
{
    let m = lookup_def_members(v);
    assert(member(m, "path"@) == Some(JsonView::String(v.path))) by {
        lemma_member_rules();
        lemma_lookup_def_keys();
    }
}

/// A [`LookupDef`] is read back from its JSON form.
pub proof fn lemma_lookup_def_round(v: LookupDefView)
    ensures
        lookup_def_of_json(lookup_def_json(v)) == Some(v),
{
    lemma_lookup_def_read_1(v);
}

/// What part 1 of the members of a [`RollupDef`] holds, where each of them
/// can be read.
pub open spec fn rollup_def_read_1(
    m: Seq<(Seq<char>, JsonView)>,
) -> Option<(Seq<char>, Seq<char>, Seq<char>, Option<Seq<char>>)> {
    let target = match member(m, "target"@) {
        Some(j) => text_of(j),
        None => None,
    };
    let fk = match member(m, "fk"@) {
        Some(j) => text_of(j),
        None => None,
    };
    let aggregate = match member(m, "aggregate"@) {
        Some(j) => text_of(j),
        None => None,
    };
    let field = match member(m, "field"@) {
        Some(j) => match text_of(j) {
            Some(x) => Some(Some(x)),
            None => None,
        },
        None => Some(None),
    };
    if target is Some && fk is Some && aggregate is Some && field is Some {
        Some((target->0, fk->0, aggregate->0, field->0))
    } else {
        None
    }
}

/// What part 2 of the members of a [`RollupDef`] holds, where each of them
/// can be read.
pub open spec fn rollup_def_read_2(m: Seq<(Seq<char>, JsonView)>) -> Option<(Option<Seq<char>>,)> {
    let where_clause = match member(m, "where"@) {
        Some(j) => match text_of(j) {
            Some(x) => Some(Some(x)),
            None => None,
        },
        None => Some(None),
    };
    if where_clause is Some {
        Some((where_clause->0,))
    } else {
        None
    }
}

/// The [`RollupDef`] that a JSON value stands for: an object in which every
/// key that must be
/// there has a value of the right shape, and every other key has one or is
/// missing.
pub open spec fn rollup_def_of_json(j: JsonView) -> Option<RollupDefView> {
    match j {
        JsonView::Object(m) => match (rollup_def_read_1(m), rollup_def_read_2(m)) {
            (Some(a), Some(b)) => Some(
                (RollupDefView {
                    target: a.0,
                    fk: a.1,
                    aggregate: a.2,
                    field: a.3,
                    where_clause: b.0,
                }),
            ),
            _ => None,
        },
        _ => None,
    }
}

fn rollup_def_get_1(m: &Vec<JsonMember>) -> (r: Option<(String, String, String, Option<String>)>)
    ensures
        r.deep_view() == rollup_def_read_1(m.deep_view()),
{
    let target = match get(m, "target") {
        Some(j) => match text_from_json(j) {
            Some(x) => x,
            None => {
                return None;
            },
        },
        None => {
            return None;
        },
    };
    let fk = match get(m, "fk") {
        Some(j) => match text_from_json(j) {
            Some(x) => x,
            None => {
                return None;
            },
        },
        None => {
            return None;
        },
    };
    let aggregate = match get(m, "aggregate") {
        Some(j) => match text_from_json(j) {
            Some(x) => x,
            None => {
                return None;
            },
        },
        None => {
            return None;
        },
    };
    let field = match get(m, "field") {
        Some(j) => match text_from_json(j) {
            Some(x) => Some(x),
            None => {
                return None;
            },
        },
        None => None,
    };
    Some((target, fk, aggregate, field))
}

fn rollup_def_get_2(m: &Vec<JsonMember>) -> (r: Option<(Option<String>,)>)
    ensures
        r.deep_view() == rollup_def_read_2(m.deep_view()),
{
    let where_clause = match get(m, "where") {
        Some(j) => match text_from_json(j) {
            Some(x) => Some(x),
            None => {
                return None;
            },
        },
        None => None,
    };
    Some((where_clause,))
}

/// Reads a [`RollupDef`] from its JSON form.
pub fn rollup_def_from_json(j: &JsonValue) -> (r: Option<RollupDef>)
    ensures
        r.deep_view() == rollup_def_of_json(j.deep_view()),
{
    match j {
        JsonValue::Object(m) => {
            proof {
                lemma_json_object(*m);
            }
            let a = match rollup_def_get_1(m) {
                Some(x) => x,
                None => {
                    return None;
                },
            };
            let b = match rollup_def_get_2(m) {
                Some(x) => x,
                None => {
                    return None;
                },
            };
            Some(
                RollupDef {
                    target: a.0,
                    fk: a.1,
                    aggregate: a.2,
                    field: a.3,
                    where_clause: b.0,
                },
            )
        },
        _ => None,
    }
}

/// The lengths and the letters that tell the keys of a [`RollupDef`] apart.
pub proof fn lemma_rollup_def_keys()
    ensures
        "target"@.len() == 6,
        "fk"@.len() == 2,
        "aggregate"@.len() == 9,
        "field"@.len() == 5,
        "where"@.len() == 5,
        "field"@[0] == 'f',
        "where"@[0] == 'w',
{
    reveal_strlit("target");
    reveal_strlit("fk");
    reveal_strlit("aggregate");
    reveal_strlit("field");
    reveal_strlit("where");
}

/// Part 1 of a [`RollupDef`] is read back from the members of its JSON form.
pub proof fn lemma_rollup_def_read_1(v: RollupDefView)
    ensures
        rollup_def_read_1(rollup_def_members(v)) == Some((v.target, v.fk, v.aggregate, v.field)),
{
    let m = rollup_def_members(v);
    assert(member(m, "target"@) == Some(JsonView::String(v.target))) by {
        lemma_member_rules();
        lemma_rollup_def_keys();
    }
    assert(member(m, "fk"@) == Some(JsonView::String(v.fk))) by {
        lemma_member_rules();
        lemma_rollup_def_keys();
    }
    assert(member(m, "aggregate"@) == Some(JsonView::String(v.aggregate))) by {
        lemma_member_rules();
        lemma_rollup_def_keys();
    }
    assert(member(m, "field"@) == match v.field {
        Some(x) => Some(JsonView::String(x)),
        None => None,
    }) by {
        lemma_member_rules();
        lemma_rollup_def_keys();
    }
}

/// Part 2 of a [`RollupDef`] is read back from the members of its JSON form.
pub proof fn lemma_rollup_def_read_2(v: RollupDefView)
    ensures
        rollup_def_read_2(rollup_def_members(v)) == Some((v.where_clause,)),
{
    let m = rollup_def_members(v);
    assert(member(m, "where"@) == match v.where_clause {
        Some(x) => Some(JsonView::String(x)),
        None => None,
    }) by {
        lemma_member_rules();
        lemma_rollup_def_keys();
    }
}

/// A [`RollupDef`] is read back from its JSON form.
pub proof fn lemma_rollup_def_round(v: RollupDefView)
    ensures
        rollup_def_of_json(rollup_def_json(v)) == Some(v),
{
    lemma_rollup_def_read_1(v);
    lemma_rollup_def_read_2(v);
}

/// What part 1 of the members of a [`ComputedDef`] holds, where each of them
/// can be read.
pub open spec fn computed_def_read_1(
    m: Seq<(Seq<char>, JsonView)>,
) -> Option<(Seq<char>, Option<Seq<char>>)> {
    let expression = match member(m, "expression"@) {
        Some(j) => text_of(j),
        None => None,
    };
    let platform = match member(m, "platform"@) {
        Some(j) => match text_of(j) {
            Some(x) => Some(Some(x)),
            None => None,
        },
        None => Some(None),
    };
    if expression is Some && platform is Some {
        Some((expression->0, platform->0))
    } else {
        None
    }
}

/// The [`ComputedDef`] that a JSON value stands for: an object in which every
/// key that must be
/// there has a value of the right shape, and every other key has one or is
/// missing.
pub open spec fn computed_def_of_json(j: JsonView) -> Option<ComputedDefView> {
    match j {
        JsonView::Object(m) => match (computed_def_read_1(m),) {
            (Some(a),) => Some(
                (ComputedDefView {
                    expression: a.0,
                    platform: a.1,
                }),
            ),
            _ => None,
        },
        _ => None,
    }
}

fn computed_def_get_1(m: &Vec<JsonMember>) -> (r: Option<(String, Option<String>)>)
    ensures
        r.deep_view() == computed_def_read_1(m.deep_view()),
{
    let expression = match get(m, "expression") {
        Some(j) => match text_from_json(j) {
            Some(x) => x,
            None => {
                return None;
            },
        },
        None => {
            return None;
        },
    };
    let platform = match get(m, "platform") {
        Some(j) => match text_from_json(j) {
            Some(x) => Some(x),
            None => {
                return None;
            },
        },
        None => None,
    };
    Some((expression, platform))
}

/// Reads a [`ComputedDef`] from its JSON form.
pub fn computed_def_from_json(j: &JsonValue) -> (r: Option<ComputedDef>)
    ensures
        r.deep_view() == computed_def_of_json(j.deep_view()),
{
    match j {
        JsonValue::Object(m) => {
            proof {
                lemma_json_object(*m);
            }
            let a = match computed_def_get_1(m) {
                Some(x) => x,
                None => {
                    return None;
                },
            };
            Some(
                ComputedDef {
                    expression: a.0,
                    platform: a.1,
                },
            )
        },
        _ => None,
    }
}

/// The lengths and the letters that tell the keys of a [`ComputedDef`] apart.
pub proof fn lemma_computed_def_keys()
    ensures
        "expression"@.len() == 10,
        "platform"@.len() == 8,
{
    reveal_strlit("expression");
    reveal_strlit("platform");
}

/// Part 1 of a [`ComputedDef`] is read back from the members of its JSON form.
pub proof fn lemma_computed_def_read_1(v: ComputedDefView)
    ensures
        computed_def_read_1(computed_def_members(v)) == Some((v.expression, v.platform)),
{
    let m = computed_def_members(v);
    assert(member(m, "expression"@) == Some(JsonView::String(v.expression))) by {
        lemma_member_rules();
        lemma_computed_def_keys();
    }
    assert(member(m, "platform"@) == match v.platform {
        Some(x) => Some(JsonView::String(x)),
        None => None,
    }) by {
        lemma_member_rules();
        lemma_computed_def_keys();
    }
}

/// A [`ComputedDef`] is read back from its JSON form.
pub proof fn lemma_computed_def_round(v: ComputedDefView)
    ensures
        computed_def_of_json(computed_def_json(v)) == Some(v),
{
    lemma_computed_def_read_1(v);
}

/// What part 1 of the members of a [`FieldNode`] holds, where each of them
/// can be read.
pub open spec fn field_node_read_1(
    m: Seq<(Seq<char>, JsonView)>,
) -> Option<(Seq<char>, Option<Seq<char>>, Option<Seq<char>>, Option<Seq<ParamView>>)> {
    let name = match member(m, "name"@) {
        Some(j) => text_of(j),
        None => None,
    };
    let label = match member(m, "label"@) {
        Some(j) => match text_of(j) {
            Some(x) => Some(Some(x)),
            None => None,
        },
        None => Some(None),
    };
    let field_type = match member(m, "type"@) {
        Some(j) => match text_of(j) {
            Some(x) => Some(Some(x)),
            None => None,
        },
        None => Some(None),
    };
    let params = match member(m, "params"@) {
        Some(j) => match params_of(j) {
            Some(x) => Some(Some(x)),
            None => None,
        },
        None => Some(None),
    };
    if name is Some && label is Some && field_type is Some && params is Some {
        Some((name->0, label->0, field_type->0, params->0))
    } else {
        None
    }
}

/// What part 2 of the members of a [`FieldNode`] holds, where each of them
/// can be read.
pub open spec fn field_node_read_2(
    m: Seq<(Seq<char>, JsonView)>,
) -> Option<(Option<Seq<Seq<char>>>, bool, bool, bool)> {
    let generic_params = match member(m, "genericParams"@) {
        Some(j) => match strings_of(j) {
            Some(x) => Some(Some(x)),
            None => None,
        },
        None => Some(None),
    };
    let nullable = match member(m, "nullable"@) {
        Some(j) => bool_of(j),
        None => None,
    };
    let array = match member(m, "array"@) {
        Some(j) => bool_of(j),
        None => None,
    };
    let array_item_nullable = match member(m, "arrayItemNullable"@) {
        Some(j) => bool_of(j),
        None => None,
    };
    if generic_params is Some && nullable is Some && array is Some && array_item_nullable is Some {
        Some((generic_params->0, nullable->0, array->0, array_item_nullable->0))
    } else {
        None
    }
}

/// What part 3 of the members of a [`FieldNode`] holds, where each of them
/// can be read.
pub open spec fn field_node_read_3(
    m: Seq<(Seq<char>, JsonView)>,
) -> Option<(FieldKind, Option<Seq<char>>, Option<DefaultValueType>, Option<Seq<char>>)> {
    let kind = match member(m, "kind"@) {
        Some(j) => field_kind_of(j),
        None => None,
    };
    let default_value = match member(m, "defaultValue"@) {
        Some(j) => match text_of(j) {
            Some(x) => Some(Some(x)),
            None => None,
        },
        None => Some(None),
    };
    let default_value_type = match member(m, "defaultValueType"@) {
        Some(j) => match default_type_of(j) {
            Some(x) => Some(Some(x)),
            None => None,
        },
        None => Some(None),
    };
    let description = match member(m, "description"@) {
        Some(j) => match text_of(j) {
            Some(x) => Some(Some(x)),
            None => None,
        },
        None => Some(None),
    };
    if kind is Some && default_value is Some && default_value_type is Some && description is Some {
        Some((kind->0, default_value->0, default_value_type->0, description->0))
    } else {
        None
    }
}

/// What part 4 of the members of a [`FieldNode`] holds, where each of them
/// can be read.
pub open spec fn field_node_read_4(
    m: Seq<(Seq<char>, JsonView)>,
) -> Option<(Seq<FieldAttributeView>, Option<Seq<CustomAttributeView>>, Option<LookupDefView>, Option<RollupDefView>)>
{
    let attributes = match member(m, "attributes"@) {
        Some(j) => field_attribute_list_of_json(j),
        None => None,
    };
    let framework_attrs = match member(m, "frameworkAttrs"@) {
        Some(j) => match custom_attribute_list_of_json(j) {
            Some(x) => Some(Some(x)),
            None => None,
        },
        None => Some(None),
    };
    let lookup = match member(m, "lookup"@) {
        Some(j) => match lookup_def_of_json(j) {
            Some(x) => Some(Some(x)),
            None => None,
        },
        None => Some(None),
    };
    let rollup = match member(m, "rollup"@) {
        Some(j) => match rollup_def_of_json(j) {
            Some(x) => Some(Some(x)),
            None => None,
        },
        None => Some(None),
    };
    if attributes is Some && framework_attrs is Some && lookup is Some && rollup is Some {
        Some((attributes->0, framework_attrs->0, lookup->0, rollup->0))
    } else {
        None
    }
}

/// What part 5 of the members of a [`FieldNode`] holds, where each of them
/// can be read.
pub open spec fn field_node_read_5(
    m: Seq<(Seq<char>, JsonView)>,
) -> Option<(Option<ComputedDefView>, Option<Seq<EnumValueView>>, Option<Seq<FieldNodeView>>, SourceLocationView)>
    decreases m, 0nat,
{
    proof {
        reveal(member);
    }
    let computed = match member(m, "computed"@) {
        Some(j) => match computed_def_of_json(j) {
            Some(x) => Some(Some(x)),
            None => None,
        },
        None => Some(None),
    };
    let enum_values = match member(m, "enumValues"@) {
        Some(j) => match enum_value_list_of_json(j) {
            Some(x) => Some(Some(x)),
            None => None,
        },
        None => Some(None),
    };
    let fields = match member(m, "fields"@) {
        Some(j) => match field_node_list_of_json(j) {
            Some(x) => Some(Some(x)),
            None => None,
        },
        None => Some(None),
    };
    let loc = match member(m, "loc"@) {
        Some(j) => source_location_of_json(j),
        None => None,
    };
    if computed is Some && enum_values is Some && fields is Some && loc is Some {
        Some((computed->0, enum_values->0, fields->0, loc->0))
    } else {
        None
    }
}

/// The [`FieldNode`] that a JSON value stands for: an object in which every
/// key that must be
/// there has a value of the right shape, and every other key has one or is
/// missing.
pub open spec fn field_node_of_json(j: JsonView) -> Option<FieldNodeView>
    decreases j, 1nat,
{
    match j {
        JsonView::Object(m) => match (field_node_read_1(m), field_node_read_2(m), field_node_read_3(m), field_node_read_4(m), field_node_read_5(m)) {
            (Some(a), Some(b), Some(c), Some(d), Some(e)) => Some(
                (FieldNodeView {
                    name: a.0,
                    label: a.1,
                    field_type: a.2,
                    params: a.3,
                    generic_params: b.0,
                    nullable: b.1,
                    array: b.2,
                    array_item_nullable: b.3,
                    kind: c.0,
                    default_value: c.1,
                    default_value_type: c.2,
                    description: c.3,
                    attributes: d.0,
                    framework_attrs: d.1,
                    lookup: d.2,
                    rollup: d.3,
                    computed: e.0,
                    enum_values: e.1,
                    fields: e.2,
                    loc: e.3,
                }),
            ),
            _ => None,
        },
        _ => None,
    }
}

/// Whether each of the items from `from` on stands for a [`FieldNode`].
pub open spec fn field_node_each_from(items: Seq<JsonView>, from: int) -> bool
    decreases items, 0nat, items.len() - from,
{
    if from < 0 || from >= items.len() {
        true
    } else {
        field_node_of_json(items[from]) is Some && field_node_each_from(items, from + 1)
    }
}

/// The list of [`FieldNode`] that the items stand for, where each of them
/// stands for one.
pub open spec fn field_node_list_of(items: Seq<JsonView>) -> Option<Seq<FieldNodeView>>
    decreases items, 1nat,
{
    if field_node_each_from(items, 0) {
        Some(
            Seq::new(
                items.len(),
                |i: int|
                    if 0 <= i < items.len() {
                        field_node_of_json(items[i])->0
                    } else {
                        arbitrary()
                    },
            ),
        )
    } else {
        None
    }
}

/// The list of [`FieldNode`] that a JSON list stands for.
pub open spec fn field_node_list_of_json(j: JsonView) -> Option<Seq<FieldNodeView>>
    decreases j, 2nat,
{
    match j {
        JsonView::Array(items) => field_node_list_of(items),
        _ => None,
    }
}

fn field_node_get_1(
    m: &Vec<JsonMember>,
) -> (r: Option<(String, Option<String>, Option<String>, Option<Vec<ParamValue>>)>)
    ensures
        r.deep_view() == field_node_read_1(m.deep_view()),
    decreases m, 0nat,
{
    let name = match get(m, "name") {
        Some(j) => match text_from_json(j) {
            Some(x) => x,
            None => {
                return None;
            },
        },
        None => {
            return None;
        },
    };
    let label = match get(m, "label") {
        Some(j) => match text_from_json(j) {
            Some(x) => Some(x),
            None => {
                return None;
            },
        },
        None => None,
    };
    let field_type = match get(m, "type") {
        Some(j) => match text_from_json(j) {
            Some(x) => Some(x),
            None => {
                return None;
            },
        },
        None => None,
    };
    let params = match get(m, "params") {
        Some(j) => match params_from_json(j) {
            Some(x) => Some(x),
            None => {
                return None;
            },
        },
        None => None,
    };
    Some((name, label, field_type, params))
}

fn field_node_get_2(m: &Vec<JsonMember>) -> (r: Option<(Option<Vec<String>>, bool, bool, bool)>)
    ensures
        r.deep_view() == field_node_read_2(m.deep_view()),
    decreases m, 0nat,
{
    let generic_params = match get(m, "genericParams") {
        Some(j) => match strings_from_json(j) {
            Some(x) => Some(x),
            None => {
                return None;
            },
        },
        None => None,
    };
    let nullable = match get(m, "nullable") {
        Some(j) => match bool_from_json(j) {
            Some(x) => x,
            None => {
                return None;
            },
        },
        None => {
            return None;
        },
    };
    let array = match get(m, "array") {
        Some(j) => match bool_from_json(j) {
            Some(x) => x,
            None => {
                return None;
            },
        },
        None => {
            return None;
        },
    };
    let array_item_nullable = match get(m, "arrayItemNullable") {
        Some(j) => match bool_from_json(j) {
            Some(x) => x,
            None => {
                return None;
            },
        },
        None => {
            return None;
        },
    };
    Some((generic_params, nullable, array, array_item_nullable))
}

fn field_node_get_3(
    m: &Vec<JsonMember>,
) -> (r: Option<(FieldKind, Option<String>, Option<DefaultValueType>, Option<String>)>)
    ensures
        r.deep_view() == field_node_read_3(m.deep_view()),
    decreases m, 0nat,
{
    let kind = match get(m, "kind") {
        Some(j) => match field_kind_from_json(j) {
            Some(x) => x,
            None => {
                return None;
            },
        },
        None => {
            return None;
        },
    };
    let default_value = match get(m, "defaultValue") {
        Some(j) => match text_from_json(j) {
            Some(x) => Some(x),
            None => {
                return None;
            },
        },
        None => None,
    };
    let default_value_type = match get(m, "defaultValueType") {
        Some(j) => match default_type_from_json(j) {
            Some(x) => Some(x),
            None => {
                return None;
            },
        },
        None => None,
    };
    let description = match get(m, "description") {
        Some(j) => match text_from_json(j) {
            Some(x) => Some(x),
            None => {
                return None;
            },
        },
        None => None,
    };
    Some((kind, default_value, default_value_type, description))
}

fn field_node_get_4(
    m: &Vec<JsonMember>,
) -> (r: Option<(Vec<FieldAttribute>, Option<Vec<CustomAttribute>>, Option<LookupDef>, Option<RollupDef>)>)
    ensures
        r.deep_view() == field_node_read_4(m.deep_view()),
    decreases m, 0nat,
{
    let attributes = match get(m, "attributes") {
        Some(j) => match field_attribute_list_from_json(j) {
            Some(x) => x,
            None => {
                return None;
            },
        },
        None => {
            return None;
        },
    };
    let framework_attrs = match get(m, "frameworkAttrs") {
        Some(j) => match custom_attribute_list_from_json(j) {
            Some(x) => Some(x),
            None => {
                return None;
            },
        },
        None => None,
    };
    let lookup = match get(m, "lookup") {
        Some(j) => match lookup_def_from_json(j) {
            Some(x) => Some(x),
            None => {
                return None;
            },
        },
        None => None,
    };
    let rollup = match get(m, "rollup") {
        Some(j) => match rollup_def_from_json(j) {
            Some(x) => Some(x),
            None => {
                return None;
            },
        },
        None => None,
    };
    Some((attributes, framework_attrs, lookup, rollup))
}

fn field_node_get_5(
    m: &Vec<JsonMember>,
) -> (r: Option<(Option<ComputedDef>, Option<Vec<EnumValue>>, Option<Vec<FieldNode>>, SourceLocation)>)
    ensures
        r.deep_view() == field_node_read_5(m.deep_view()),
    decreases m, 0nat,
{
    let computed = match get(m, "computed") {
        Some(j) => match computed_def_from_json(j) {
            Some(x) => Some(x),
            None => {
                return None;
            },
        },
        None => None,
    };
    let enum_values = match get(m, "enumValues") {
        Some(j) => match enum_value_list_from_json(j) {
            Some(x) => Some(x),
            None => {
                return None;
            },
        },
        None => None,
    };
    let fields = match get(m, "fields") {
        Some(j) => match field_node_list_from_json(j) {
            Some(x) => Some(x),
            None => {
                return None;
            },
        },
        None => None,
    };
    let loc = match get(m, "loc") {
        Some(j) => match source_location_from_json(j) {
            Some(x) => x,
            None => {
                return None;
            },
        },
        None => {
            return None;
        },
    };
    Some((computed, enum_values, fields, loc))
}

/// Reads a [`FieldNode`] from its JSON form.
pub fn field_node_from_json(j: &JsonValue) -> (r: Option<FieldNode>)
    ensures
        r.deep_view() == field_node_of_json(j.deep_view()),
    decreases j, 1nat,
{
    match j {
        JsonValue::Object(m) => {
            proof {
                lemma_json_object(*m);
            }
            let a = match field_node_get_1(m) {
                Some(x) => x,
                None => {
                    return None;
                },
            };
            let b = match field_node_get_2(m) {
                Some(x) => x,
                None => {
                    return None;
                },
            };
            let c = match field_node_get_3(m) {
                Some(x) => x,
                None => {
                    return None;
                },
            };
            let d = match field_node_get_4(m) {
                Some(x) => x,
                None => {
                    return None;
                },
            };
            let e = match field_node_get_5(m) {
                Some(x) => x,
                None => {
                    return None;
                },
            };
            let r = FieldNode {
                name: a.0,
                label: a.1,
                field_type: a.2,
                params: a.3,
                generic_params: b.0,
                nullable: b.1,
                array: b.2,
                array_item_nullable: b.3,
                kind: c.0,
                default_value: c.1,
                default_value_type: c.2,
                description: c.3,
                attributes: d.0,
                framework_attrs: d.1,
                lookup: d.2,
                rollup: d.3,
                computed: e.0,
                enum_values: e.1,
                fields: e.2,
                loc: e.3,
            };
            proof {
                if r.fields is Some {
                    lemma_field_view_fields(&r);
                }
            }
            Some(r)
        },
        _ => None,
    }
}

/// Reads a list of [`FieldNode`] from the JSON forms of its items.
pub fn field_node_list_from(items: &Vec<JsonValue>) -> (r: Option<Vec<FieldNode>>)
    ensures
        r.deep_view() == field_node_list_of(items.deep_view()),
    decreases items, 0nat,
{
    let mut out: Vec<FieldNode> = Vec::new();
    let mut i: usize = 0;
    while i < items.len()
        invariant
            i <= items@.len(),
            out@.len() == i,
            field_node_each_from(items.deep_view(), 0) == field_node_each_from(
                items.deep_view(),
                i as int,
            ),
            forall|k: int|
                0 <= k < i ==> field_node_of_json(#[trigger] items.deep_view()[k]) == Some(
                    out@[k].deep_view(),
                ),
        decreases items.len() - i,
    {
        match field_node_from_json(&items[i]) {
            Some(x) => {
                out.push(x);
            },
            None => {
                proof {
                    assert(field_node_of_json(items.deep_view()[i as int]) is None);
                }
                return None;
            },
        }
        i += 1;
    }
    proof {
        assert(out.deep_view() =~= field_node_list_of(items.deep_view())->0);
    }
    Some(out)
}

/// Reads a list of [`FieldNode`] from its JSON form.
pub fn field_node_list_from_json(j: &JsonValue) -> (r: Option<Vec<FieldNode>>)
    ensures
        r.deep_view() == field_node_list_of_json(j.deep_view()),
    decreases j, 1nat,
{
    match j {
        JsonValue::Array(items) => {
            proof {
                lemma_json_array(*items);
            }
            field_node_list_from(items)
        },
        _ => None,
    }
}

/// The lengths and the letters that tell the keys of a [`FieldNode`] apart.
pub proof fn lemma_field_node_keys()
    ensures
        "name"@.len() == 4,
        "label"@.len() == 5,
        "type"@.len() == 4,
        "params"@.len() == 6,
        "genericParams"@.len() == 13,
        "nullable"@.len() == 8,
        "array"@.len() == 5,
        "arrayItemNullable"@.len() == 17,
        "kind"@.len() == 4,
        "defaultValue"@.len() == 12,
        "defaultValueType"@.len() == 16,
        "description"@.len() == 11,
        "attributes"@.len() == 10,
        "frameworkAttrs"@.len() == 14,
        "lookup"@.len() == 6,
        "rollup"@.len() == 6,
        "computed"@.len() == 8,
        "enumValues"@.len() == 10,
        "fields"@.len() == 6,
        "loc"@.len() == 3,
        "name"@[0] == 'n',
        "type"@[0] == 't',
        "kind"@[0] == 'k',
        "label"@[0] == 'l',
        "array"@[0] == 'a',
        "params"@[0] == 'p',
        "lookup"@[0] == 'l',
        "rollup"@[0] == 'r',
        "fields"@[0] == 'f',
        "nullable"@[0] == 'n',
        "computed"@[0] == 'c',
        "attributes"@[0] == 'a',
        "enumValues"@[0] == 'e',
{
    reveal_strlit("name");
    reveal_strlit("label");
    reveal_strlit("type");
    reveal_strlit("params");
    reveal_strlit("genericParams");
    reveal_strlit("nullable");
    reveal_strlit("array");
    reveal_strlit("arrayItemNullable");
    reveal_strlit("kind");
    reveal_strlit("defaultValue");
    reveal_strlit("defaultValueType");
    reveal_strlit("description");
    reveal_strlit("attributes");
    reveal_strlit("frameworkAttrs");
    reveal_strlit("lookup");
    reveal_strlit("rollup");
    reveal_strlit("computed");
    reveal_strlit("enumValues");
    reveal_strlit("fields");
    reveal_strlit("loc");
}

/// Part 1 of a [`FieldNode`] is read back from the members of its JSON form.
pub proof fn lemma_field_node_read_1(v: FieldNodeView)
    ensures
        field_node_read_1(field_node_members(v)) == Some((v.name, v.label, v.field_type, v.params)),
    decreases v, 0nat,
{
    let m = field_node_members(v);
    assert(member(m, "name"@) == Some(JsonView::String(v.name))) by {
        lemma_member_rules();
        lemma_field_node_keys();
    }
    assert(member(m, "label"@) == match v.label {
        Some(x) => Some(JsonView::String(x)),
        None => None,
    }) by {
        lemma_member_rules();
        lemma_field_node_keys();
    }
    assert(member(m, "type"@) == match v.field_type {
        Some(x) => Some(JsonView::String(x)),
        None => None,
    }) by {
        lemma_member_rules();
        lemma_field_node_keys();
    }
    assert(member(m, "params"@) == match v.params {
        Some(x) => Some(JsonView::Array(param_json_list(x))),
        None => None,
    }) by {
        lemma_member_rules();
        lemma_field_node_keys();
    }
    if v.params is Some {
        lemma_params_round(v.params->0);
    }
}

/// Part 2 of a [`FieldNode`] is read back from the members of its JSON form.
pub proof fn lemma_field_node_read_2(v: FieldNodeView)
    ensures
        field_node_read_2(field_node_members(v)) == Some(
            (v.generic_params, v.nullable, v.array, v.array_item_nullable),
        ),
    decreases v, 0nat,
{
    let m = field_node_members(v);
    assert(member(m, "genericParams"@) == match v.generic_params {
        Some(x) => Some(JsonView::Array(string_values(x))),
        None => None,
    }) by {
        lemma_member_rules();
        lemma_field_node_keys();
    }
    assert(member(m, "nullable"@) == Some(JsonView::Bool(v.nullable))) by {
        lemma_member_rules();
        lemma_field_node_keys();
    }
    assert(member(m, "array"@) == Some(JsonView::Bool(v.array))) by {
        lemma_member_rules();
        lemma_field_node_keys();
    }
    assert(member(m, "arrayItemNullable"@) == Some(JsonView::Bool(v.array_item_nullable))) by {
        lemma_member_rules();
        lemma_field_node_keys();
    }
    if v.generic_params is Some {
        lemma_strings_round(v.generic_params->0);
    }
}

/// Part 3 of a [`FieldNode`] is read back from the members of its JSON form.
pub proof fn lemma_field_node_read_3(v: FieldNodeView)
    ensures
        field_node_read_3(field_node_members(v)) == Some(
            (v.kind, v.default_value, v.default_value_type, v.description),
        ),
    decreases v, 0nat,
{
    let m = field_node_members(v);
    assert(member(m, "kind"@) == Some(JsonView::String(kind_word(v.kind)))) by {
        lemma_member_rules();
        lemma_field_node_keys();
    }
    assert(member(m, "defaultValue"@) == match v.default_value {
        Some(x) => Some(JsonView::String(x)),
        None => None,
    }) by {
        lemma_member_rules();
        lemma_field_node_keys();
    }
    assert(member(m, "defaultValueType"@) == match v.default_value_type {
        Some(x) => Some(JsonView::String(default_type_word(x))),
        None => None,
    }) by {
        lemma_member_rules();
        lemma_field_node_keys();
    }
    assert(member(m, "description"@) == match v.description {
        Some(x) => Some(JsonView::String(x)),
        None => None,
    }) by {
        lemma_member_rules();
        lemma_field_node_keys();
    }
    lemma_field_kind_round(v.kind);
    if v.default_value_type is Some {
        lemma_default_type_round(v.default_value_type->0);
    }
}

/// Part 4 of a [`FieldNode`] is read back from the members of its JSON form.
pub proof fn lemma_field_node_read_4(v: FieldNodeView)
    ensures
        field_node_read_4(field_node_members(v)) == Some(
            (v.attributes, v.framework_attrs, v.lookup, v.rollup),
        ),
    decreases v, 0nat,
{
    let m = field_node_members(v);
    assert(member(m, "attributes"@) == Some(
        JsonView::Array(field_attribute_json_list(v.attributes)),
    )) by {
        lemma_member_rules();
        lemma_field_node_keys();
    }
    assert(member(m, "frameworkAttrs"@) == match v.framework_attrs {
        Some(x) => Some(JsonView::Array(custom_attribute_json_list(x))),
        None => None,
    }) by {
        lemma_member_rules();
        lemma_field_node_keys();
    }
    assert(member(m, "lookup"@) == match v.lookup {
        Some(x) => Some(lookup_def_json(x)),
        None => None,
    }) by {
        lemma_member_rules();
        lemma_field_node_keys();
    }
    assert(member(m, "rollup"@) == match v.rollup {
        Some(x) => Some(rollup_def_json(x)),
        None => None,
    }) by {
        lemma_member_rules();
        lemma_field_node_keys();
    }
    lemma_field_attribute_list_round(v.attributes);
    if v.framework_attrs is Some {
        lemma_custom_attribute_list_round(v.framework_attrs->0);
    }
    if v.lookup is Some {
        lemma_lookup_def_round(v.lookup->0);
    }
    if v.rollup is Some {
        lemma_rollup_def_round(v.rollup->0);
    }
}

/// Part 5 of a [`FieldNode`] is read back from the members of its JSON form.
pub proof fn lemma_field_node_read_5(v: FieldNodeView)
    ensures
        field_node_read_5(field_node_members(v)) == Some(
            (v.computed, v.enum_values, v.fields, v.loc),
        ),
    decreases v, 0nat,
{
    let m = field_node_members(v);
    assert(member(m, "computed"@) == match v.computed {
        Some(x) => Some(computed_def_json(x)),
        None => None,
    }) by {
        lemma_member_rules();
        lemma_field_node_keys();
    }
    assert(member(m, "enumValues"@) == match v.enum_values {
        Some(x) => Some(JsonView::Array(enum_value_json_list(x))),
        None => None,
    }) by {
        lemma_member_rules();
        lemma_field_node_keys();
    }
    assert(member(m, "fields"@) == match v.fields {
        Some(x) => Some(JsonView::Array(field_node_json_list(x))),
        None => None,
    }) by {
        lemma_member_rules();
        lemma_field_node_keys();
    }
    assert(member(m, "loc"@) == Some(source_location_json(v.loc))) by {
        lemma_member_rules();
        lemma_field_node_keys();
    }
    if v.computed is Some {
        lemma_computed_def_round(v.computed->0);
    }
    if v.enum_values is Some {
        lemma_enum_value_list_round(v.enum_values->0);
    }
    if v.fields is Some {
        lemma_field_node_list_round(v.fields->0);
    }
    lemma_source_location_round(v.loc);
}

/// A [`FieldNode`] is read back from its JSON form.
pub proof fn lemma_field_node_round(v: FieldNodeView)
    ensures
        field_node_of_json(field_node_json(v)) == Some(v),
    decreases v, 1nat,
{
    lemma_field_node_read_1(v);
    lemma_field_node_read_2(v);
    lemma_field_node_read_3(v);
    lemma_field_node_read_4(v);
    lemma_field_node_read_5(v);
}

/// Where each of the items from `from` on stands for a [`FieldNode`], the
/// check finds so.
pub proof fn lemma_field_node_each(items: Seq<JsonView>, from: int)
    requires
        0 <= from <= items.len(),
        forall|i: int| from <= i < items.len() ==> (#[trigger] field_node_of_json(items[i])) is Some,
    ensures
        field_node_each_from(items, from),
    decreases items.len() - from,
{
    if from < items.len() {
        assert(field_node_of_json(items[from]) is Some);
        lemma_field_node_each(items, from + 1);
    }
}

/// A list of [`FieldNode`] is read back from its JSON form.
pub proof fn lemma_field_node_list_round(list: Seq<FieldNodeView>)
    ensures
        field_node_list_of_json(JsonView::Array(field_node_json_list(list))) == Some(list),
    decreases list, 2nat,
{
    let items = field_node_json_list(list);
    assert forall|i: int| 0 <= i < items.len() implies field_node_of_json(#[trigger] items[i]) == Some(
        list[i],
    ) by {
        lemma_field_node_round(list[i]);
    }
    lemma_field_node_each(items, 0);
    assert(field_node_list_of(items)->0 =~= list);
}

/// What part 1 of the members of a [`JoinDef`] holds, where each of them can
/// be read.
pub open spec fn join_def_read_1(m: Seq<(Seq<char>, JsonView)>) -> Option<(Seq<char>, Seq<char>)> {
    let model = match member(m, "model"@) {
        Some(j) => text_of(j),
        None => None,
    };
    let on = match member(m, "on"@) {
        Some(j) => text_of(j),
        None => None,
    };
    if model is Some && on is Some {
        Some((model->0, on->0))
    } else {
        None
    }
}

/// The [`JoinDef`] that a JSON value stands for: an object in which every key
/// that must be
/// there has a value of the right shape, and every other key has one or is
/// missing.
pub open spec fn join_def_of_json(j: JsonView) -> Option<JoinDefView> {
    match j {
        JsonView::Object(m) => match (join_def_read_1(m),) {
            (Some(a),) => Some(
                (JoinDefView {
                    model: a.0,
                    on: a.1,
                }),
            ),
            _ => None,
        },
        _ => None,
    }
}

/// The list of [`JoinDef`] that the items stand for, where each of them
/// stands for one.
pub open spec fn join_def_list_of(items: Seq<JsonView>) -> Option<Seq<JoinDefView>> {
    if forall|i: int| 0 <= i < items.len() ==> (#[trigger] join_def_of_json(items[i])) is Some {
        Some(Seq::new(items.len(), |i: int| join_def_of_json(items[i])->0))
    } else {
        None
    }
}

/// The list of [`JoinDef`] that a JSON list stands for.
pub open spec fn join_def_list_of_json(j: JsonView) -> Option<Seq<JoinDefView>> {
    match j {
        JsonView::Array(items) => join_def_list_of(items),
        _ => None,
    }
}

fn join_def_get_1(m: &Vec<JsonMember>) -> (r: Option<(String, String)>)
    ensures
        r.deep_view() == join_def_read_1(m.deep_view()),
{
    let model = match get(m, "model") {
        Some(j) => match text_from_json(j) {
            Some(x) => x,
            None => {
                return None;
            },
        },
        None => {
            return None;
        },
    };
    let on = match get(m, "on") {
        Some(j) => match text_from_json(j) {
            Some(x) => x,
            None => {
                return None;
            },
        },
        None => {
            return None;
        },
    };
    Some((model, on))
}

/// Reads a [`JoinDef`] from its JSON form.
pub fn join_def_from_json(j: &JsonValue) -> (r: Option<JoinDef>)
    ensures
        r.deep_view() == join_def_of_json(j.deep_view()),
{
    match j {
        JsonValue::Object(m) => {
            proof {
                lemma_json_object(*m);
            }
            let a = match join_def_get_1(m) {
                Some(x) => x,
                None => {
                    return None;
                },
            };
            Some(
                JoinDef {
                    model: a.0,
                    on: a.1,
                },
            )
        },
        _ => None,
    }
}

/// Reads a list of [`JoinDef`] from the JSON forms of its items.
pub fn join_def_list_from(items: &Vec<JsonValue>) -> (r: Option<Vec<JoinDef>>)
    ensures
        r.deep_view() == join_def_list_of(items.deep_view()),
{
    let mut out: Vec<JoinDef> = Vec::new();
    let mut i: usize = 0;
    while i < items.len()
        invariant
            i <= items@.len(),
            out@.len() == i,
            forall|k: int|
                0 <= k < i ==> join_def_of_json(#[trigger] items.deep_view()[k]) == Some(
                    out@[k].deep_view(),
                ),
        decreases items.len() - i,
    {
        match join_def_from_json(&items[i]) {
            Some(x) => {
                out.push(x);
            },
            None => {
                proof {
                    assert(join_def_of_json(items.deep_view()[i as int]) is None);
                }
                return None;
            },
        }
        i += 1;
    }
    proof {
        assert(out.deep_view() =~= join_def_list_of(items.deep_view())->0);
    }
    Some(out)
}

/// Reads a list of [`JoinDef`] from its JSON form.
pub fn join_def_list_from_json(j: &JsonValue) -> (r: Option<Vec<JoinDef>>)
    ensures
        r.deep_view() == join_def_list_of_json(j.deep_view()),
{
    match j {
        JsonValue::Array(items) => {
            proof {
                lemma_json_array(*items);
            }
            join_def_list_from(items)
        },
        _ => None,
    }
}

/// The lengths and the letters that tell the keys of a [`JoinDef`] apart.
pub proof fn lemma_join_def_keys()
    ensures
        "model"@.len() == 5,
        "on"@.len() == 2,
{
    reveal_strlit("model");
    reveal_strlit("on");
}

/// Part 1 of a [`JoinDef`] is read back from the members of its JSON form.
pub proof fn lemma_join_def_read_1(v: JoinDefView)
    ensures
        join_def_read_1(join_def_members(v)) == Some((v.model, v.on)),
{
    let m = join_def_members(v);
    assert(member(m, "model"@) == Some(JsonView::String(v.model))) by {
        lemma_member_rules();
        lemma_join_def_keys();
    }
    assert(member(m, "on"@) == Some(JsonView::String(v.on))) by {
        lemma_member_rules();
        lemma_join_def_keys();
    }
}

/// A [`JoinDef`] is read back from its JSON form.
pub proof fn lemma_join_def_round(v: JoinDefView)
    ensures
        join_def_of_json(join_def_json(v)) == Some(v),
{
    lemma_join_def_read_1(v);
}

/// A list of [`JoinDef`] is read back from its JSON form.
pub proof fn lemma_join_def_list_round(list: Seq<JoinDefView>)
    ensures
        join_def_list_of_json(JsonView::Array(join_def_json_list(list))) == Some(list),
{
    let items = join_def_json_list(list);
    assert forall|i: int| 0 <= i < items.len() implies join_def_of_json(#[trigger] items[i]) == Some(
        list[i],
    ) by {
        lemma_join_def_round(list[i]);
    }
    assert(join_def_list_of(items)->0 =~= list);
}

/// What part 1 of the members of a [`ViewSourceDef`] holds, where each of
/// them can be read.
pub open spec fn view_source_def_read_1(
    m: Seq<(Seq<char>, JsonView)>,
) -> Option<(Option<Seq<char>>, Option<Seq<JoinDefView>>, Option<Seq<char>>, Option<Seq<char>>)> {
    let from = match member(m, "from"@) {
        Some(j) => match text_of(j) {
            Some(x) => Some(Some(x)),
            None => None,
        },
        None => Some(None),
    };
    let joins = match member(m, "joins"@) {
        Some(j) => match join_def_list_of_json(j) {
            Some(x) => Some(Some(x)),
            None => None,
        },
        None => Some(None),
    };
    let where_clause = match member(m, "where"@) {
        Some(j) => match text_of(j) {
            Some(x) => Some(Some(x)),
            None => None,
        },
        None => Some(None),
    };
    let order_by = match member(m, "orderBy"@) {
        Some(j) => match text_of(j) {
            Some(x) => Some(Some(x)),
            None => None,
        },
        None => Some(None),
    };
    if from is Some && joins is Some && where_clause is Some && order_by is Some {
        Some((from->0, joins->0, where_clause->0, order_by->0))
    } else {
        None
    }
}

/// What part 2 of the members of a [`ViewSourceDef`] holds, where each of
/// them can be read.
pub open spec fn view_source_def_read_2(
    m: Seq<(Seq<char>, JsonView)>,
) -> Option<(Option<Seq<Seq<char>>>, Option<Seq<char>>, Option<Seq<char>>)> {
    let group_by = match member(m, "groupBy"@) {
        Some(j) => match strings_of(j) {
            Some(x) => Some(Some(x)),
            None => None,
        },
        None => Some(None),
    };
    let raw_sql = match member(m, "rawSql"@) {
        Some(j) => match text_of(j) {
            Some(x) => Some(Some(x)),
            None => None,
        },
        None => Some(None),
    };
    let language_hint = match member(m, "languageHint"@) {
        Some(j) => match text_of(j) {
            Some(x) => Some(Some(x)),
            None => None,
        },
        None => Some(None),
    };
    if group_by is Some && raw_sql is Some && language_hint is Some {
        Some((group_by->0, raw_sql->0, language_hint->0))
    } else {
        None
    }
}

/// The [`ViewSourceDef`] that a JSON value stands for: an object in which
/// every key that must be
/// there has a value of the right shape, and every other key has one or is
/// missing.
pub open spec fn view_source_def_of_json(j: JsonView) -> Option<ViewSourceDefView> {
    match j {
        JsonView::Object(m) => match (view_source_def_read_1(m), view_source_def_read_2(m)) {
            (Some(a), Some(b)) => Some(
                (ViewSourceDefView {
                    from: a.0,
                    joins: a.1,
                    where_clause: a.2,
                    order_by: a.3,
                    group_by: b.0,
                    raw_sql: b.1,
                    language_hint: b.2,
                }),
            ),
            _ => None,
        },
        _ => None,
    }
}

fn view_source_def_get_1(
    m: &Vec<JsonMember>,
) -> (r: Option<(Option<String>, Option<Vec<JoinDef>>, Option<String>, Option<String>)>)
    ensures
        r.deep_view() == view_source_def_read_1(m.deep_view()),
{
    let from = match get(m, "from") {
        Some(j) => match text_from_json(j) {
            Some(x) => Some(x),
            None => {
                return None;
            },
        },
        None => None,
    };
    let joins = match get(m, "joins") {
        Some(j) => match join_def_list_from_json(j) {
            Some(x) => Some(x),
            None => {
                return None;
            },
        },
        None => None,
    };
    let where_clause = match get(m, "where") {
        Some(j) => match text_from_json(j) {
            Some(x) => Some(x),
            None => {
                return None;
            },
        },
        None => None,
    };
    let order_by = match get(m, "orderBy") {
        Some(j) => match text_from_json(j) {
            Some(x) => Some(x),
            None => {
                return None;
            },
        },
        None => None,
    };
    Some((from, joins, where_clause, order_by))
}

fn view_source_def_get_2(
    m: &Vec<JsonMember>,
) -> (r: Option<(Option<Vec<String>>, Option<String>, Option<String>)>)
    ensures
        r.deep_view() == view_source_def_read_2(m.deep_view()),
{
    let group_by = match get(m, "groupBy") {
        Some(j) => match strings_from_json(j) {
            Some(x) => Some(x),
            None => {
                return None;
            },
        },
        None => None,
    };
    let raw_sql = match get(m, "rawSql") {
        Some(j) => match text_from_json(j) {
            Some(x) => Some(x),
            None => {
                return None;
            },
        },
        None => None,
    };
    let language_hint = match get(m, "languageHint") {
        Some(j) => match text_from_json(j) {
            Some(x) => Some(x),
            None => {
                return None;
            },
        },
        None => None,
    };
    Some((group_by, raw_sql, language_hint))
}

/// Reads a [`ViewSourceDef`] from its JSON form.
pub fn view_source_def_from_json(j: &JsonValue) -> (r: Option<ViewSourceDef>)
    ensures
        r.deep_view() == view_source_def_of_json(j.deep_view()),
{
    match j {
        JsonValue::Object(m) => {
            proof {
                lemma_json_object(*m);
            }
            let a = match view_source_def_get_1(m) {
                Some(x) => x,
                None => {
                    return None;
                },
            };
            let b = match view_source_def_get_2(m) {
                Some(x) => x,
                None => {
                    return None;
                },
            };
            Some(
                ViewSourceDef {
                    from: a.0,
                    joins: a.1,
                    where_clause: a.2,
                    order_by: a.3,
                    group_by: b.0,
                    raw_sql: b.1,
                    language_hint: b.2,
                },
            )
        },
        _ => None,
    }
}

/// The lengths and the letters that tell the keys of a [`ViewSourceDef`] apart.
pub proof fn lemma_view_source_def_keys()
    ensures
        "from"@.len() == 4,
        "joins"@.len() == 5,
        "where"@.len() == 5,
        "orderBy"@.len() == 7,
        "groupBy"@.len() == 7,
        "rawSql"@.len() == 6,
        "languageHint"@.len() == 12,
        "joins"@[0] == 'j',
        "where"@[0] == 'w',
        "orderBy"@[0] == 'o',
        "groupBy"@[0] == 'g',
{
    reveal_strlit("from");
    reveal_strlit("joins");
    reveal_strlit("where");
    reveal_strlit("orderBy");
    reveal_strlit("groupBy");
    reveal_strlit("rawSql");
    reveal_strlit("languageHint");
}

/// Part 1 of a [`ViewSourceDef`] is read back from the members of its JSON
/// form.
pub proof fn lemma_view_source_def_read_1(v: ViewSourceDefView)
    ensures
        view_source_def_read_1(view_source_def_members(v)) == Some(
            (v.from, v.joins, v.where_clause, v.order_by),
        ),
{
    let m = view_source_def_members(v);
    assert(member(m, "from"@) == match v.from {
        Some(x) => Some(JsonView::String(x)),
        None => None,
    }) by {
        lemma_member_rules();
        lemma_view_source_def_keys();
    }
    assert(member(m, "joins"@) == match v.joins {
        Some(x) => Some(JsonView::Array(join_def_json_list(x))),
        None => None,
    }) by {
        lemma_member_rules();
        lemma_view_source_def_keys();
    }
    assert(member(m, "where"@) == match v.where_clause {
        Some(x) => Some(JsonView::String(x)),
        None => None,
    }) by {
        lemma_member_rules();
        lemma_view_source_def_keys();
    }
    assert(member(m, "orderBy"@) == match v.order_by {
        Some(x) => Some(JsonView::String(x)),
        None => None,
    }) by {
        lemma_member_rules();
        lemma_view_source_def_keys();
    }
    if v.joins is Some {
        lemma_join_def_list_round(v.joins->0);
    }
}

/// Part 2 of a [`ViewSourceDef`] is read back from the members of its JSON
/// form.
pub proof fn lemma_view_source_def_read_2(v: ViewSourceDefView)
    ensures
        view_source_def_read_2(view_source_def_members(v)) == Some(
            (v.group_by, v.raw_sql, v.language_hint),
        ),
{
    let m = view_source_def_members(v);
    assert(member(m, "groupBy"@) == match v.group_by {
        Some(x) => Some(JsonView::Array(string_values(x))),
        None => None,
    }) by {
        lemma_member_rules();
        lemma_view_source_def_keys();
    }
    assert(member(m, "rawSql"@) == match v.raw_sql {
        Some(x) => Some(JsonView::String(x)),
        None => None,
    }) by {
        lemma_member_rules();
        lemma_view_source_def_keys();
    }
    assert(member(m, "languageHint"@) == match v.language_hint {
        Some(x) => Some(JsonView::String(x)),
        None => None,
    }) by {
        lemma_member_rules();
        lemma_view_source_def_keys();
    }
    if v.group_by is Some {
        lemma_strings_round(v.group_by->0);
    }
}

/// A [`ViewSourceDef`] is read back from its JSON form.
pub proof fn lemma_view_source_def_round(v: ViewSourceDefView)
    ensures
        view_source_def_of_json(view_source_def_json(v)) == Some(v),
{
    lemma_view_source_def_read_1(v);
    lemma_view_source_def_read_2(v);
}

/// What part 1 of the members of a [`RefreshDef`] holds, where each of them
/// can be read.
pub open spec fn refresh_def_read_1(
    m: Seq<(Seq<char>, JsonView)>,
) -> Option<(Seq<char>, Option<Seq<char>>)> {
    let strategy = match member(m, "strategy"@) {
        Some(j) => text_of(j),
        None => None,
    };
    let interval = match member(m, "interval"@) {
        Some(j) => match text_of(j) {
            Some(x) => Some(Some(x)),
            None => None,
        },
        None => Some(None),
    };
    if strategy is Some && interval is Some {
        Some((strategy->0, interval->0))
    } else {
        None
    }
}

/// The [`RefreshDef`] that a JSON value stands for: an object in which every
/// key that must be
/// there has a value of the right shape, and every other key has one or is
/// missing.
pub open spec fn refresh_def_of_json(j: JsonView) -> Option<RefreshDefView> {
    match j {
        JsonView::Object(m) => match (refresh_def_read_1(m),) {
            (Some(a),) => Some(
                (RefreshDefView {
                    strategy: a.0,
                    interval: a.1,
                }),
            ),
            _ => None,
        },
        _ => None,
    }
}

fn refresh_def_get_1(m: &Vec<JsonMember>) -> (r: Option<(String, Option<String>)>)
    ensures
        r.deep_view() == refresh_def_read_1(m.deep_view()),
{
    let strategy = match get(m, "strategy") {
        Some(j) => match text_from_json(j) {
            Some(x) => x,
            None => {
                return None;
            },
        },
        None => {
            return None;
        },
    };
    let interval = match get(m, "interval") {
        Some(j) => match text_from_json(j) {
            Some(x) => Some(x),
            None => {
                return None;
            },
        },
        None => None,
    };
    Some((strategy, interval))
}

/// Reads a [`RefreshDef`] from its JSON form.
pub fn refresh_def_from_json(j: &JsonValue) -> (r: Option<RefreshDef>)
    ensures
        r.deep_view() == refresh_def_of_json(j.deep_view()),
{
    match j {
        JsonValue::Object(m) => {
            proof {
                lemma_json_object(*m);
            }
            let a = match refresh_def_get_1(m) {
                Some(x) => x,
                None => {
                    return None;
                },
            };
            Some(
                RefreshDef {
                    strategy: a.0,
                    interval: a.1,
                },
            )
        },
        _ => None,
    }
}

/// The lengths and the letters that tell the keys of a [`RefreshDef`] apart.
pub proof fn lemma_refresh_def_keys()
    ensures
        "strategy"@.len() == 8,
        "interval"@.len() == 8,
        "strategy"@[0] == 's',
        "interval"@[0] == 'i',
{
    reveal_strlit("strategy");
    reveal_strlit("interval");
}

/// Part 1 of a [`RefreshDef`] is read back from the members of its JSON form.
pub proof fn lemma_refresh_def_read_1(v: RefreshDefView)
    ensures
        refresh_def_read_1(refresh_def_members(v)) == Some((v.strategy, v.interval)),
{
    let m = refresh_def_members(v);
    assert(member(m, "strategy"@) == Some(JsonView::String(v.strategy))) by {
        lemma_member_rules();
        lemma_refresh_def_keys();
    }
    assert(member(m, "interval"@) == match v.interval {
        Some(x) => Some(JsonView::String(x)),
        None => None,
    }) by {
        lemma_member_rules();
        lemma_refresh_def_keys();
    }
}

/// A [`RefreshDef`] is read back from its JSON form.
pub proof fn lemma_refresh_def_round(v: RefreshDefView)
    ensures
        refresh_def_of_json(refresh_def_json(v)) == Some(v),
{
    lemma_refresh_def_read_1(v);
}

/// Whether a key is one of the four fixed buckets of the sections.
pub open spec fn is_bucket(key: Seq<char>) -> bool {
    key == "indexes"@ || key == "relations"@ || key == "behaviors"@ || key == "metadata"@
}

/// Whether a key is one of the four fixed buckets of the sections.
pub fn is_bucket_key(key: &str) -> (r: bool)
    ensures
        r == is_bucket(key@),
{
    str_eq(key, "indexes") || str_eq(key, "relations") || str_eq(key, "behaviors") || str_eq(
        key,
        "metadata",
    )
}

/// The members whose key is none of the four fixed buckets, in order.
pub open spec fn others(m: Seq<(Seq<char>, JsonView)>) -> Seq<(Seq<char>, JsonView)>
    decreases m.len(),
{
    if m.len() == 0 {
        Seq::empty()
    } else if is_bucket(m.last().0) {
        others(m.drop_last())
    } else {
        others(m.drop_last()).push(m.last())
    }
}

/// The sections that a JSON object stands for: the four fixed buckets by
/// their keys, and every other member as a custom section.
pub open spec fn sections_of_json(j: JsonView) -> Option<SectionsView> {
    match j {
        JsonView::Object(m) => match (
            member(m, "indexes"@),
            member(m, "relations"@),
            member(m, "behaviors"@),
            member(m, "metadata"@),
        ) {
            (
                Some(JsonView::Array(indexes)),
                Some(JsonView::Array(relations)),
                Some(JsonView::Array(behaviors)),
                Some(JsonView::Object(metadata)),
            ) => Some(
                (SectionsView { indexes, relations, behaviors, metadata, custom: others(m) }),
            ),
            _ => None,
        },
        _ => None,
    }
}

fn others_of(m: &Vec<JsonMember>) -> (r: Vec<JsonMember>)
    ensures
        r.deep_view() == others(m.deep_view()),
{
    let mut out: Vec<JsonMember> = Vec::new();
    let mut i: usize = 0;
    proof {
        assert(m.deep_view().take(0) =~= Seq::empty());
        assert(out.deep_view() =~= Seq::empty());
    }
    while i < m.len()
        invariant
            i <= m@.len(),
            out.deep_view() == others(m.deep_view().take(i as int)),
        decreases m.len() - i,
    {
        let ghost before = out.deep_view();
        proof {
            let next = m.deep_view().take(i + 1);
            assert(next.drop_last() =~= m.deep_view().take(i as int));
            assert(next.last() == m@[i as int].deep_view());
        }
        if !is_bucket_key(m[i].key.as_str()) {
            out.push(m[i].clone());
            proof {
                assert(out.deep_view() =~= before.push(m@[i as int].deep_view()));
            }
        }
        i += 1;
    }
    proof {
        assert(m.deep_view().take(m@.len() as int) =~= m.deep_view());
    }
    out
}

/// The sections that a JSON object stands for.
pub fn sections_from_json(j: &JsonValue) -> (r: Option<Sections>)
    ensures
        r.deep_view() == sections_of_json(j.deep_view()),
{
    match j {
        JsonValue::Object(m) => {
            proof {
                lemma_json_object(*m);
            }
            match (get(m, "indexes"), get(m, "relations"), get(m, "behaviors"), get(m, "metadata")) {
                (
                    Some(JsonValue::Array(indexes)),
                    Some(JsonValue::Array(relations)),
                    Some(JsonValue::Array(behaviors)),
                    Some(JsonValue::Object(metadata)),
                ) => {
                    proof {
                        lemma_json_array(*indexes);
                        lemma_json_array(*relations);
                        lemma_json_array(*behaviors);
                        lemma_json_object(*metadata);
                    }
                    Some(
                        Sections {
                            indexes: clone_vec_json_value(indexes),
                            relations: clone_vec_json_value(relations),
                            behaviors: clone_vec_json_value(behaviors),
                            metadata: clone_vec_json_member(metadata),
                            custom: others_of(m),
                        },
                    )
                },
                _ => None,
            }
        },
        _ => None,
    }
}

/// Whether no custom section has the key of one of the four fixed buckets.
pub open spec fn plain_sections(v: SectionsView) -> bool {
    forall|i: int| 0 <= i < v.custom.len() ==> !is_bucket(#[trigger] v.custom[i].0)
}

/// Of fixed buckets followed by other members, the others are kept.
pub proof fn lemma_others_kept(
    fixed: Seq<(Seq<char>, JsonView)>,
    custom: Seq<(Seq<char>, JsonView)>,
)
    requires
        forall|i: int| 0 <= i < fixed.len() ==> is_bucket(#[trigger] fixed[i].0),
        forall|i: int| 0 <= i < custom.len() ==> !is_bucket(#[trigger] custom[i].0),
    ensures
        others(fixed + custom) == custom,
    decreases fixed.len() + custom.len(),
{
    let all = fixed + custom;
    if custom.len() > 0 {
        assert(all.drop_last() =~= fixed + custom.drop_last());
        assert(all.last() == custom.last());
        lemma_others_kept(fixed, custom.drop_last());
        assert(custom.drop_last().push(custom.last()) =~= custom);
    } else if fixed.len() > 0 {
        assert(all.drop_last() =~= fixed.drop_last() + custom);
        assert(all.last() == fixed.last());
        lemma_others_kept(fixed.drop_last(), custom);
    } else {
        assert(all =~= Seq::empty());
    }
}

/// Sections whose custom keys are none of the fixed buckets are read back
/// from their JSON form.
pub proof fn lemma_sections_round(v: SectionsView)
    requires
        plain_sections(v),
    ensures
        sections_of_json(sections_json(v)) == Some(v),
{
    let fixed = seq![
        ("indexes"@, JsonView::Array(v.indexes)),
        ("relations"@, JsonView::Array(v.relations)),
        ("behaviors"@, JsonView::Array(v.behaviors)),
        ("metadata"@, JsonView::Object(v.metadata)),
    ];
    let m = sections_members(v);
    reveal(member);
    assert(m == fixed + v.custom);
    lemma_others_kept(fixed, v.custom);
    reveal_strlit("indexes");
    reveal_strlit("relations");
    reveal_strlit("behaviors");
    reveal_strlit("metadata");
    assert("indexes"@.len() == 7 && "relations"@.len() == 9 && "behaviors"@.len() == 9
        && "metadata"@.len() == 8);
    assert("relations"@[0] == 'r' && "behaviors"@[0] == 'b');
    lemma_index_in_both(fixed, v.custom, "indexes"@, 0);
    lemma_index_in_both(fixed, v.custom, "relations"@, 0);
    lemma_index_in_both(fixed, v.custom, "behaviors"@, 0);
    lemma_index_in_both(fixed, v.custom, "metadata"@, 0);
    assert(member_index(fixed, "indexes"@, 0) == 0);
    assert(member_index(fixed, "relations"@, 1) == 1);
    assert(member_index(fixed, "behaviors"@, 2) == 2);
    assert(member_index(fixed, "behaviors"@, 1) == 2);
    assert(member_index(fixed, "metadata"@, 3) == 3);
    assert(member_index(fixed, "metadata"@, 2) == 3);
    assert(member_index(fixed, "metadata"@, 1) == 3);
}

/// What part 1 of the members of a [`ModelNode`] holds, where each of them
/// can be read.
pub open spec fn model_node_read_1(
    m: Seq<(Seq<char>, JsonView)>,
) -> Option<(Seq<char>, Option<Seq<char>>, ModelType, Seq<char>)> {
    let name = match member(m, "name"@) {
        Some(j) => text_of(j),
        None => None,
    };
    let label = match member(m, "label"@) {
        Some(j) => match text_of(j) {
            Some(x) => Some(Some(x)),
            None => None,
        },
        None => Some(None),
    };
    let model_type = match member(m, "type"@) {
        Some(j) => model_type_of(j),
        None => None,
    };
    let source = match member(m, "source"@) {
        Some(j) => text_of(j),
        None => None,
    };
    if name is Some && label is Some && model_type is Some && source is Some {
        Some((name->0, label->0, model_type->0, source->0))
    } else {
        None
    }
}

/// What part 2 of the members of a [`ModelNode`] holds, where each of them
/// can be read.
pub open spec fn model_node_read_2(
    m: Seq<(Seq<char>, JsonView)>,
) -> Option<(usize, Seq<Seq<char>>, Option<Seq<char>>, Seq<FieldAttributeView>)> {
    let line = match member(m, "line"@) {
        Some(j) => count_of(j),
        None => None,
    };
    let inherits = match member(m, "inherits"@) {
        Some(j) => strings_of(j),
        None => None,
    };
    let description = match member(m, "description"@) {
        Some(j) => match text_of(j) {
            Some(x) => Some(Some(x)),
            None => None,
        },
        None => Some(None),
    };
    let attributes = match member(m, "attributes"@) {
        Some(j) => field_attribute_list_of_json(j),
        None => None,
    };
    if line is Some && inherits is Some && description is Some && attributes is Some {
        Some((line->0, inherits->0, description->0, attributes->0))
    } else {
        None
    }
}

/// What part 3 of the members of a [`ModelNode`] holds, where each of them
/// can be read.
pub open spec fn model_node_read_3(
    m: Seq<(Seq<char>, JsonView)>,
) -> Option<(Seq<FieldNodeView>, SectionsView, Option<bool>, Option<ViewSourceDefView>)> {
    let fields = match member(m, "fields"@) {
        Some(j) => field_node_list_of_json(j),
        None => None,
    };
    let sections = match member(m, "sections"@) {
        Some(j) => sections_of_json(j),
        None => None,
    };
    let materialized = match member(m, "materialized"@) {
        Some(j) => match bool_of(j) {
            Some(x) => Some(Some(x)),
            None => None,
        },
        None => Some(None),
    };
    let source_def = match member(m, "sourceDef"@) {
        Some(j) => match view_source_def_of_json(j) {
            Some(x) => Some(Some(x)),
            None => None,
        },
        None => Some(None),
    };
    if fields is Some && sections is Some && materialized is Some && source_def is Some {
        Some((fields->0, sections->0, materialized->0, source_def->0))
    } else {
        None
    }
}

/// What part 4 of the members of a [`ModelNode`] holds, where each of them
/// can be read.
pub open spec fn model_node_read_4(
    m: Seq<(Seq<char>, JsonView)>,
) -> Option<(Option<RefreshDefView>, SourceLocationView)> {
    let refresh = match member(m, "refresh"@) {
        Some(j) => match refresh_def_of_json(j) {
            Some(x) => Some(Some(x)),
            None => None,
        },
        None => Some(None),
    };
    let loc = match member(m, "loc"@) {
        Some(j) => source_location_of_json(j),
        None => None,
    };
    if refresh is Some && loc is Some {
        Some((refresh->0, loc->0))
    } else {
        None
    }
}

/// The [`ModelNode`] that a JSON value stands for: an object in which every
/// key that must be
/// there has a value of the right shape, and every other key has one or is
/// missing.
pub open spec fn model_node_of_json(j: JsonView) -> Option<ModelNodeView> {
    match j {
        JsonView::Object(m) => match (model_node_read_1(m), model_node_read_2(m), model_node_read_3(m), model_node_read_4(m)) {
            (Some(a), Some(b), Some(c), Some(d)) => Some(
                (ModelNodeView {
                    name: a.0,
                    label: a.1,
                    model_type: a.2,
                    source: a.3,
                    line: b.0,
                    inherits: b.1,
                    description: b.2,
                    attributes: b.3,
                    fields: c.0,
                    sections: c.1,
                    materialized: c.2,
                    source_def: c.3,
                    refresh: d.0,
                    loc: d.1,
                }),
            ),
            _ => None,
        },
        _ => None,
    }
}

/// The list of [`ModelNode`] that the items stand for, where each of them
/// stands for one.
pub open spec fn model_node_list_of(items: Seq<JsonView>) -> Option<Seq<ModelNodeView>> {
    if forall|i: int| 0 <= i < items.len() ==> (#[trigger] model_node_of_json(items[i])) is Some {
        Some(Seq::new(items.len(), |i: int| model_node_of_json(items[i])->0))
    } else {
        None
    }
}

/// The list of [`ModelNode`] that a JSON list stands for.
pub open spec fn model_node_list_of_json(j: JsonView) -> Option<Seq<ModelNodeView>> {
    match j {
        JsonView::Array(items) => model_node_list_of(items),
        _ => None,
    }
}

fn model_node_get_1(
    m: &Vec<JsonMember>,
) -> (r: Option<(String, Option<String>, ModelType, String)>)
    ensures
        r.deep_view() == model_node_read_1(m.deep_view()),
{
    let name = match get(m, "name") {
        Some(j) => match text_from_json(j) {
            Some(x) => x,
            None => {
                return None;
            },
        },
        None => {
            return None;
        },
    };
    let label = match get(m, "label") {
        Some(j) => match text_from_json(j) {
            Some(x) => Some(x),
            None => {
                return None;
            },
        },
        None => None,
    };
    let model_type = match get(m, "type") {
        Some(j) => match model_type_from_json(j) {
            Some(x) => x,
            None => {
                return None;
            },
        },
        None => {
            return None;
        },
    };
    let source = match get(m, "source") {
        Some(j) => match text_from_json(j) {
            Some(x) => x,
            None => {
                return None;
            },
        },
        None => {
            return None;
        },
    };
    Some((name, label, model_type, source))
}

fn model_node_get_2(
    m: &Vec<JsonMember>,
) -> (r: Option<(usize, Vec<String>, Option<String>, Vec<FieldAttribute>)>)
    ensures
        r.deep_view() == model_node_read_2(m.deep_view()),
{
    let line = match get(m, "line") {
        Some(j) => match count_from_json(j) {
            Some(x) => x,
            None => {
                return None;
            },
        },
        None => {
            return None;
        },
    };
    let inherits = match get(m, "inherits") {
        Some(j) => match strings_from_json(j) {
            Some(x) => x,
            None => {
                return None;
            },
        },
        None => {
            return None;
        },
    };
    let description = match get(m, "description") {
        Some(j) => match text_from_json(j) {
            Some(x) => Some(x),
            None => {
                return None;
            },
        },
        None => None,
    };
    let attributes = match get(m, "attributes") {
        Some(j) => match field_attribute_list_from_json(j) {
            Some(x) => x,
            None => {
                return None;
            },
        },
        None => {
            return None;
        },
    };
    Some((line, inherits, description, attributes))
}

fn model_node_get_3(
    m: &Vec<JsonMember>,
) -> (r: Option<(Vec<FieldNode>, Sections, Option<bool>, Option<ViewSourceDef>)>)
    ensures
        r.deep_view() == model_node_read_3(m.deep_view()),
{
    let fields = match get(m, "fields") {
        Some(j) => match field_node_list_from_json(j) {
            Some(x) => x,
            None => {
                return None;
            },
        },
        None => {
            return None;
        },
    };
    let sections = match get(m, "sections") {
        Some(j) => match sections_from_json(j) {
            Some(x) => x,
            None => {
                return None;
            },
        },
        None => {
            return None;
        },
    };
    let materialized = match get(m, "materialized") {
        Some(j) => match bool_from_json(j) {
            Some(x) => Some(x),
            None => {
                return None;
            },
        },
        None => None,
    };
    let source_def = match get(m, "sourceDef") {
        Some(j) => match view_source_def_from_json(j) {
            Some(x) => Some(x),
            None => {
                return None;
            },
        },
        None => None,
    };
    Some((fields, sections, materialized, source_def))
}

fn model_node_get_4(m: &Vec<JsonMember>) -> (r: Option<(Option<RefreshDef>, SourceLocation)>)
    ensures
        r.deep_view() == model_node_read_4(m.deep_view()),
{
    let refresh = match get(m, "refresh") {
        Some(j) => match refresh_def_from_json(j) {
            Some(x) => Some(x),
            None => {
                return None;
            },
        },
        None => None,
    };
    let loc = match get(m, "loc") {
        Some(j) => match source_location_from_json(j) {
            Some(x) => x,
            None => {
                return None;
            },
        },
        None => {
            return None;
        },
    };
    Some((refresh, loc))
}

/// Reads a [`ModelNode`] from its JSON form.
pub fn model_node_from_json(j: &JsonValue) -> (r: Option<ModelNode>)
    ensures
        r.deep_view() == model_node_of_json(j.deep_view()),
{
    match j {
        JsonValue::Object(m) => {
            proof {
                lemma_json_object(*m);
            }
            let a = match model_node_get_1(m) {
                Some(x) => x,
                None => {
                    return None;
                },
            };
            let b = match model_node_get_2(m) {
                Some(x) => x,
                None => {
                    return None;
                },
            };
            let c = match model_node_get_3(m) {
                Some(x) => x,
                None => {
                    return None;
                },
            };
            let d = match model_node_get_4(m) {
                Some(x) => x,
                None => {
                    return None;
                },
            };
            Some(
                ModelNode {
                    name: a.0,
                    label: a.1,
                    model_type: a.2,
                    source: a.3,
                    line: b.0,
                    inherits: b.1,
                    description: b.2,
                    attributes: b.3,
                    fields: c.0,
                    sections: c.1,
                    materialized: c.2,
                    source_def: c.3,
                    refresh: d.0,
                    loc: d.1,
                },
            )
        },
        _ => None,
    }
}

/// Reads a list of [`ModelNode`] from the JSON forms of its items.
pub fn model_node_list_from(items: &Vec<JsonValue>) -> (r: Option<Vec<ModelNode>>)
    ensures
        r.deep_view() == model_node_list_of(items.deep_view()),
{
    let mut out: Vec<ModelNode> = Vec::new();
    let mut i: usize = 0;
    while i < items.len()
        invariant
            i <= items@.len(),
            out@.len() == i,
            forall|k: int|
                0 <= k < i ==> model_node_of_json(#[trigger] items.deep_view()[k]) == Some(
                    out@[k].deep_view(),
                ),
        decreases items.len() - i,
    {
        match model_node_from_json(&items[i]) {
            Some(x) => {
                out.push(x);
            },
            None => {
                proof {
                    assert(model_node_of_json(items.deep_view()[i as int]) is None);
                }
                return None;
            },
        }
        i += 1;
    }
    proof {
        assert(out.deep_view() =~= model_node_list_of(items.deep_view())->0);
    }
    Some(out)
}

/// Reads a list of [`ModelNode`] from its JSON form.
pub fn model_node_list_from_json(j: &JsonValue) -> (r: Option<Vec<ModelNode>>)
    ensures
        r.deep_view() == model_node_list_of_json(j.deep_view()),
{
    match j {
        JsonValue::Array(items) => {
            proof {
                lemma_json_array(*items);
            }
            model_node_list_from(items)
        },
        _ => None,
    }
}

/// Whether no custom section of the model has the key of one of the four
/// fixed buckets.
pub open spec fn plain_model(v: ModelNodeView) -> bool {
    plain_sections(v.sections)
}

/// The lengths and the letters that tell the keys of a [`ModelNode`] apart.
pub proof fn lemma_model_node_keys()
    ensures
        "name"@.len() == 4,
        "label"@.len() == 5,
        "type"@.len() == 4,
        "source"@.len() == 6,
        "line"@.len() == 4,
        "inherits"@.len() == 8,
        "description"@.len() == 11,
        "attributes"@.len() == 10,
        "fields"@.len() == 6,
        "sections"@.len() == 8,
        "materialized"@.len() == 12,
        "sourceDef"@.len() == 9,
        "refresh"@.len() == 7,
        "loc"@.len() == 3,
        "name"@[0] == 'n',
        "type"@[0] == 't',
        "line"@[0] == 'l',
        "source"@[0] == 's',
        "fields"@[0] == 'f',
        "inherits"@[0] == 'i',
        "sections"@[0] == 's',
{
    reveal_strlit("name");
    reveal_strlit("label");
    reveal_strlit("type");
    reveal_strlit("source");
    reveal_strlit("line");
    reveal_strlit("inherits");
    reveal_strlit("description");
    reveal_strlit("attributes");
    reveal_strlit("fields");
    reveal_strlit("sections");
    reveal_strlit("materialized");
    reveal_strlit("sourceDef");
    reveal_strlit("refresh");
    reveal_strlit("loc");
}

/// Part 1 of a [`ModelNode`] is read back from the members of its JSON form.
pub proof fn lemma_model_node_read_1(v: ModelNodeView)
    ensures
        model_node_read_1(model_node_members(v)) == Some((v.name, v.label, v.model_type, v.source)),
{
    let m = model_node_members(v);
    assert(member(m, "name"@) == Some(JsonView::String(v.name))) by {
        lemma_member_rules();
        lemma_model_node_keys();
    }
    assert(member(m, "label"@) == match v.label {
        Some(x) => Some(JsonView::String(x)),
        None => None,
    }) by {
        lemma_member_rules();
        lemma_model_node_keys();
    }
    assert(member(m, "type"@) == Some(JsonView::String(type_word(v.model_type)))) by {
        lemma_member_rules();
        lemma_model_node_keys();
    }
    assert(member(m, "source"@) == Some(JsonView::String(v.source))) by {
        lemma_member_rules();
        lemma_model_node_keys();
    }
    lemma_model_type_round(v.model_type);
}

/// Part 2 of a [`ModelNode`] is read back from the members of its JSON form.
pub proof fn lemma_model_node_read_2(v: ModelNodeView)
    ensures
        model_node_read_2(model_node_members(v)) == Some(
            (v.line, v.inherits, v.description, v.attributes),
        ),
{
    let m = model_node_members(v);
    assert(member(m, "line"@) == Some(JsonView::Int(v.line as int))) by {
        lemma_member_rules();
        lemma_model_node_keys();
    }
    assert(member(m, "inherits"@) == Some(JsonView::Array(string_values(v.inherits)))) by {
        lemma_member_rules();
        lemma_model_node_keys();
    }
    assert(member(m, "description"@) == match v.description {
        Some(x) => Some(JsonView::String(x)),
        None => None,
    }) by {
        lemma_member_rules();
        lemma_model_node_keys();
    }
    assert(member(m, "attributes"@) == Some(
        JsonView::Array(field_attribute_json_list(v.attributes)),
    )) by {
        lemma_member_rules();
        lemma_model_node_keys();
    }
    lemma_strings_round(v.inherits);
    lemma_field_attribute_list_round(v.attributes);
}

/// Part 3 of a [`ModelNode`] is read back from the members of its JSON form.
pub proof fn lemma_model_node_read_3(v: ModelNodeView)
    requires
        plain_model(v),
    ensures
        model_node_read_3(model_node_members(v)) == Some(
            (v.fields, v.sections, v.materialized, v.source_def),
        ),
{
    let m = model_node_members(v);
    assert(member(m, "fields"@) == Some(JsonView::Array(field_node_json_list(v.fields)))) by {
        lemma_member_rules();
        lemma_model_node_keys();
    }
    assert(member(m, "sections"@) == Some(sections_json(v.sections))) by {
        lemma_member_rules();
        lemma_model_node_keys();
    }
    assert(member(m, "materialized"@) == match v.materialized {
        Some(x) => Some(JsonView::Bool(x)),
        None => None,
    }) by {
        lemma_member_rules();
        lemma_model_node_keys();
    }
    assert(member(m, "sourceDef"@) == match v.source_def {
        Some(x) => Some(view_source_def_json(x)),
        None => None,
    }) by {
        lemma_member_rules();
        lemma_model_node_keys();
    }
    lemma_field_node_list_round(v.fields);
    lemma_sections_round(v.sections);
    if v.source_def is Some {
        lemma_view_source_def_round(v.source_def->0);
    }
}

/// Part 4 of a [`ModelNode`] is read back from the members of its JSON form.
pub proof fn lemma_model_node_read_4(v: ModelNodeView)
    ensures
        model_node_read_4(model_node_members(v)) == Some((v.refresh, v.loc)),
{
    let m = model_node_members(v);
    assert(member(m, "refresh"@) == match v.refresh {
        Some(x) => Some(refresh_def_json(x)),
        None => None,
    }) by {
        lemma_member_rules();
        lemma_model_node_keys();
    }
    assert(member(m, "loc"@) == Some(source_location_json(v.loc))) by {
        lemma_member_rules();
        lemma_model_node_keys();
    }
    if v.refresh is Some {
        lemma_refresh_def_round(v.refresh->0);
    }
    lemma_source_location_round(v.loc);
}

/// A [`ModelNode`] is read back from its JSON form.
pub proof fn lemma_model_node_round(v: ModelNodeView)
    requires
        plain_model(v),
    ensures
        model_node_of_json(model_node_json(v)) == Some(v),
{
    lemma_model_node_read_1(v);
    lemma_model_node_read_2(v);
    lemma_model_node_read_3(v);
    lemma_model_node_read_4(v);
}

/// A list of [`ModelNode`] is read back from its JSON form.
pub proof fn lemma_model_node_list_round(list: Seq<ModelNodeView>)
    requires
        forall|i: int| 0 <= i < list.len() ==> plain_model(#[trigger] list[i]),
    ensures
        model_node_list_of_json(JsonView::Array(model_node_json_list(list))) == Some(list),
{
    let items = model_node_json_list(list);
    assert forall|i: int| 0 <= i < items.len() implies model_node_of_json(#[trigger] items[i]) == Some(
        list[i],
    ) by {
        lemma_model_node_round(list[i]);
    }
    assert(model_node_list_of(items)->0 =~= list);
}

/// What part 1 of the members of a [`EnumNode`] holds, where each of them can
/// be read.
pub open spec fn enum_node_read_1(
    m: Seq<(Seq<char>, JsonView)>,
) -> Option<(Seq<char>, Option<Seq<char>>, ModelType, Seq<char>)> {
    let name = match member(m, "name"@) {
        Some(j) => text_of(j),
        None => None,
    };
    let label = match member(m, "label"@) {
        Some(j) => match text_of(j) {
            Some(x) => Some(Some(x)),
            None => None,
        },
        None => Some(None),
    };
    let enum_type = match member(m, "type"@) {
        Some(j) => model_type_of(j),
        None => None,
    };
    let source = match member(m, "source"@) {
        Some(j) => text_of(j),
        None => None,
    };
    if name is Some && label is Some && enum_type is Some && source is Some {
        Some((name->0, label->0, enum_type->0, source->0))
    } else {
        None
    }
}

/// What part 2 of the members of a [`EnumNode`] holds, where each of them can
/// be read.
pub open spec fn enum_node_read_2(
    m: Seq<(Seq<char>, JsonView)>,
) -> Option<(usize, Seq<Seq<char>>, Option<Seq<char>>, Seq<EnumValueView>)> {
    let line = match member(m, "line"@) {
        Some(j) => count_of(j),
        None => None,
    };
    let inherits = match member(m, "inherits"@) {
        Some(j) => strings_of(j),
        None => None,
    };
    let description = match member(m, "description"@) {
        Some(j) => match text_of(j) {
            Some(x) => Some(Some(x)),
            None => None,
        },
        None => Some(None),
    };
    let values = match member(m, "values"@) {
        Some(j) => enum_value_list_of_json(j),
        None => None,
    };
    if line is Some && inherits is Some && description is Some && values is Some {
        Some((line->0, inherits->0, description->0, values->0))
    } else {
        None
    }
}

/// What part 3 of the members of a [`EnumNode`] holds, where each of them can
/// be read.
pub open spec fn enum_node_read_3(m: Seq<(Seq<char>, JsonView)>) -> Option<(SourceLocationView,)> {
    let loc = match member(m, "loc"@) {
        Some(j) => source_location_of_json(j),
        None => None,
    };
    if loc is Some {
        Some((loc->0,))
    } else {
        None
    }
}

/// The [`EnumNode`] that a JSON value stands for: an object in which every
/// key that must be
/// there has a value of the right shape, and every other key has one or is
/// missing.
pub open spec fn enum_node_of_json(j: JsonView) -> Option<EnumNodeView> {
    match j {
        JsonView::Object(m) => match (enum_node_read_1(m), enum_node_read_2(m), enum_node_read_3(m)) {
            (Some(a), Some(b), Some(c)) => Some(
                (EnumNodeView {
                    name: a.0,
                    label: a.1,
                    enum_type: a.2,
                    source: a.3,
                    line: b.0,
                    inherits: b.1,
                    description: b.2,
                    values: b.3,
                    loc: c.0,
                }),
            ),
            _ => None,
        },
        _ => None,
    }
}

/// The list of [`EnumNode`] that the items stand for, where each of them
/// stands for one.
pub open spec fn enum_node_list_of(items: Seq<JsonView>) -> Option<Seq<EnumNodeView>> {
    if forall|i: int| 0 <= i < items.len() ==> (#[trigger] enum_node_of_json(items[i])) is Some {
        Some(Seq::new(items.len(), |i: int| enum_node_of_json(items[i])->0))
    } else {
        None
    }
}

/// The list of [`EnumNode`] that a JSON list stands for.
pub open spec fn enum_node_list_of_json(j: JsonView) -> Option<Seq<EnumNodeView>> {
    match j {
        JsonView::Array(items) => enum_node_list_of(items),
        _ => None,
    }
}

fn enum_node_get_1(
    m: &Vec<JsonMember>,
) -> (r: Option<(String, Option<String>, ModelType, String)>)
    ensures
        r.deep_view() == enum_node_read_1(m.deep_view()),
{
    let name = match get(m, "name") {
        Some(j) => match text_from_json(j) {
            Some(x) => x,
            None => {
                return None;
            },
        },
        None => {
            return None;
        },
    };
    let label = match get(m, "label") {
        Some(j) => match text_from_json(j) {
            Some(x) => Some(x),
            None => {
                return None;
            },
        },
        None => None,
    };
    let enum_type = match get(m, "type") {
        Some(j) => match model_type_from_json(j) {
            Some(x) => x,
            None => {
                return None;
            },
        },
        None => {
            return None;
        },
    };
    let source = match get(m, "source") {
        Some(j) => match text_from_json(j) {
            Some(x) => x,
            None => {
                return None;
            },
        },
        None => {
            return None;
        },
    };
    Some((name, label, enum_type, source))
}

fn enum_node_get_2(
    m: &Vec<JsonMember>,
) -> (r: Option<(usize, Vec<String>, Option<String>, Vec<EnumValue>)>)
    ensures
        r.deep_view() == enum_node_read_2(m.deep_view()),
{
    let line = match get(m, "line") {
        Some(j) => match count_from_json(j) {
            Some(x) => x,
            None => {
                return None;
            },
        },
        None => {
            return None;
        },
    };
    let inherits = match get(m, "inherits") {
        Some(j) => match strings_from_json(j) {
            Some(x) => x,
            None => {
                return None;
            },
        },
        None => {
            return None;
        },
    };
    let description = match get(m, "description") {
        Some(j) => match text_from_json(j) {
            Some(x) => Some(x),
            None => {
                return None;
            },
        },
        None => None,
    };
    let values = match get(m, "values") {
        Some(j) => match enum_value_list_from_json(j) {
            Some(x) => x,
            None => {
                return None;
            },
        },
        None => {
            return None;
        },
    };
    Some((line, inherits, description, values))
}

fn enum_node_get_3(m: &Vec<JsonMember>) -> (r: Option<(SourceLocation,)>)
    ensures
        r.deep_view() == enum_node_read_3(m.deep_view()),
{
    let loc = match get(m, "loc") {
        Some(j) => match source_location_from_json(j) {
            Some(x) => x,
            None => {
                return None;
            },
        },
        None => {
            return None;
        },
    };
    Some((loc,))
}

/// Reads a [`EnumNode`] from its JSON form.
pub fn enum_node_from_json(j: &JsonValue) -> (r: Option<EnumNode>)
    ensures
        r.deep_view() == enum_node_of_json(j.deep_view()),
{
    match j {
        JsonValue::Object(m) => {
            proof {
                lemma_json_object(*m);
            }
            let a = match enum_node_get_1(m) {
                Some(x) => x,
                None => {
                    return None;
                },
            };
            let b = match enum_node_get_2(m) {
                Some(x) => x,
                None => {
                    return None;
                },
            };
            let c = match enum_node_get_3(m) {
                Some(x) => x,
                None => {
                    return None;
                },
            };
            Some(
                EnumNode {
                    name: a.0,
                    label: a.1,
                    enum_type: a.2,
                    source: a.3,
                    line: b.0,
                    inherits: b.1,
                    description: b.2,
                    values: b.3,
                    loc: c.0,
                },
            )
        },
        _ => None,
    }
}

/// Reads a list of [`EnumNode`] from the JSON forms of its items.
pub fn enum_node_list_from(items: &Vec<JsonValue>) -> (r: Option<Vec<EnumNode>>)
    ensures
        r.deep_view() == enum_node_list_of(items.deep_view()),
{
    let mut out: Vec<EnumNode> = Vec::new();
    let mut i: usize = 0;
    while i < items.len()
        invariant
            i <= items@.len(),
            out@.len() == i,
            forall|k: int|
                0 <= k < i ==> enum_node_of_json(#[trigger] items.deep_view()[k]) == Some(
                    out@[k].deep_view(),
                ),
        decreases items.len() - i,
    {
        match enum_node_from_json(&items[i]) {
            Some(x) => {
                out.push(x);
            },
            None => {
                proof {
                    assert(enum_node_of_json(items.deep_view()[i as int]) is None);
                }
                return None;
            },
        }
        i += 1;
    }
    proof {
        assert(out.deep_view() =~= enum_node_list_of(items.deep_view())->0);
    }
    Some(out)
}

/// Reads a list of [`EnumNode`] from its JSON form.
pub fn enum_node_list_from_json(j: &JsonValue) -> (r: Option<Vec<EnumNode>>)
    ensures
        r.deep_view() == enum_node_list_of_json(j.deep_view()),
{
    match j {
        JsonValue::Array(items) => {
            proof {
                lemma_json_array(*items);
            }
            enum_node_list_from(items)
        },
        _ => None,
    }
}

/// The lengths and the letters that tell the keys of a [`EnumNode`] apart.
pub proof fn lemma_enum_node_keys()
    ensures
        "name"@.len() == 4,
        "label"@.len() == 5,
        "type"@.len() == 4,
        "source"@.len() == 6,
        "line"@.len() == 4,
        "inherits"@.len() == 8,
        "description"@.len() == 11,
        "values"@.len() == 6,
        "loc"@.len() == 3,
        "name"@[0] == 'n',
        "type"@[0] == 't',
        "line"@[0] == 'l',
        "source"@[0] == 's',
        "values"@[0] == 'v',
{
    reveal_strlit("name");
    reveal_strlit("label");
    reveal_strlit("type");
    reveal_strlit("source");
    reveal_strlit("line");
    reveal_strlit("inherits");
    reveal_strlit("description");
    reveal_strlit("values");
    reveal_strlit("loc");
}

/// Part 1 of a [`EnumNode`] is read back from the members of its JSON form.
pub proof fn lemma_enum_node_read_1(v: EnumNodeView)
    ensures
        enum_node_read_1(enum_node_members(v)) == Some((v.name, v.label, v.enum_type, v.source)),
{
    let m = enum_node_members(v);
    assert(member(m, "name"@) == Some(JsonView::String(v.name))) by {
        lemma_member_rules();
        lemma_enum_node_keys();
    }
    assert(member(m, "label"@) == match v.label {
        Some(x) => Some(JsonView::String(x)),
        None => None,
    }) by {
        lemma_member_rules();
        lemma_enum_node_keys();
    }
    assert(member(m, "type"@) == Some(JsonView::String(type_word(v.enum_type)))) by {
        lemma_member_rules();
        lemma_enum_node_keys();
    }
    assert(member(m, "source"@) == Some(JsonView::String(v.source))) by {
        lemma_member_rules();
        lemma_enum_node_keys();
    }
    lemma_model_type_round(v.enum_type);
}

/// Part 2 of a [`EnumNode`] is read back from the members of its JSON form.
pub proof fn lemma_enum_node_read_2(v: EnumNodeView)
    ensures
        enum_node_read_2(enum_node_members(v)) == Some(
            (v.line, v.inherits, v.description, v.values),
        ),
{
    let m = enum_node_members(v);
    assert(member(m, "line"@) == Some(JsonView::Int(v.line as int))) by {
        lemma_member_rules();
        lemma_enum_node_keys();
    }
    assert(member(m, "inherits"@) == Some(JsonView::Array(string_values(v.inherits)))) by {
        lemma_member_rules();
        lemma_enum_node_keys();
    }
    assert(member(m, "description"@) == match v.description {
        Some(x) => Some(JsonView::String(x)),
        None => None,
    }) by {
        lemma_member_rules();
        lemma_enum_node_keys();
    }
    assert(member(m, "values"@) == Some(JsonView::Array(enum_value_json_list(v.values)))) by {
        lemma_member_rules();
        lemma_enum_node_keys();
    }
    lemma_strings_round(v.inherits);
    lemma_enum_value_list_round(v.values);
}

/// Part 3 of a [`EnumNode`] is read back from the members of its JSON form.
pub proof fn lemma_enum_node_read_3(v: EnumNodeView)
    ensures
        enum_node_read_3(enum_node_members(v)) == Some((v.loc,)),
{
    let m = enum_node_members(v);
    assert(member(m, "loc"@) == Some(source_location_json(v.loc))) by {
        lemma_member_rules();
        lemma_enum_node_keys();
    }
    lemma_source_location_round(v.loc);
}

/// A [`EnumNode`] is read back from its JSON form.
pub proof fn lemma_enum_node_round(v: EnumNodeView)
    ensures
        enum_node_of_json(enum_node_json(v)) == Some(v),
{
    lemma_enum_node_read_1(v);
    lemma_enum_node_read_2(v);
    lemma_enum_node_read_3(v);
}

/// A list of [`EnumNode`] is read back from its JSON form.
pub proof fn lemma_enum_node_list_round(list: Seq<EnumNodeView>)
    ensures
        enum_node_list_of_json(JsonView::Array(enum_node_json_list(list))) == Some(list),
{
    let items = enum_node_json_list(list);
    assert forall|i: int| 0 <= i < items.len() implies enum_node_of_json(#[trigger] items[i]) == Some(
        list[i],
    ) by {
        lemma_enum_node_round(list[i]);
    }
    assert(enum_node_list_of(items)->0 =~= list);
}

/// What part 1 of the members of a [`ProjectInfo`] holds, where each of them
/// can be read.
pub open spec fn project_info_read_1(
    m: Seq<(Seq<char>, JsonView)>,
) -> Option<(Option<Seq<char>>, Option<Seq<char>>)> {
    let name = match member(m, "name"@) {
        Some(j) => match text_of(j) {
            Some(x) => Some(Some(x)),
            None => None,
        },
        None => Some(None),
    };
    let version = match member(m, "version"@) {
        Some(j) => match text_of(j) {
            Some(x) => Some(Some(x)),
            None => None,
        },
        None => Some(None),
    };
    if name is Some && version is Some {
        Some((name->0, version->0))
    } else {
        None
    }
}

/// The [`ProjectInfo`] that a JSON value stands for: an object in which every
/// key that must be
/// there has a value of the right shape, and every other key has one or is
/// missing.
pub open spec fn project_info_of_json(j: JsonView) -> Option<ProjectInfoView> {
    match j {
        JsonView::Object(m) => match (project_info_read_1(m),) {
            (Some(a),) => Some(
                (ProjectInfoView {
                    name: a.0,
                    version: a.1,
                }),
            ),
            _ => None,
        },
        _ => None,
    }
}

fn project_info_get_1(m: &Vec<JsonMember>) -> (r: Option<(Option<String>, Option<String>)>)
    ensures
        r.deep_view() == project_info_read_1(m.deep_view()),
{
    let name = match get(m, "name") {
        Some(j) => match text_from_json(j) {
            Some(x) => Some(x),
            None => {
                return None;
            },
        },
        None => None,
    };
    let version = match get(m, "version") {
        Some(j) => match text_from_json(j) {
            Some(x) => Some(x),
            None => {
                return None;
            },
        },
        None => None,
    };
    Some((name, version))
}

/// Reads a [`ProjectInfo`] from its JSON form.
pub fn project_info_from_json(j: &JsonValue) -> (r: Option<ProjectInfo>)
    ensures
        r.deep_view() == project_info_of_json(j.deep_view()),
{
    match j {
        JsonValue::Object(m) => {
            proof {
                lemma_json_object(*m);
            }
            let a = match project_info_get_1(m) {
                Some(x) => x,
                None => {
                    return None;
                },
            };
            Some(
                ProjectInfo {
                    name: a.0,
                    version: a.1,
                },
            )
        },
        _ => None,
    }
}

/// The lengths and the letters that tell the keys of a [`ProjectInfo`] apart.
pub proof fn lemma_project_info_keys()
    ensures
        "name"@.len() == 4,
        "version"@.len() == 7,
{
    reveal_strlit("name");
    reveal_strlit("version");
}

/// Part 1 of a [`ProjectInfo`] is read back from the members of its JSON form.
pub proof fn lemma_project_info_read_1(v: ProjectInfoView)
    ensures
        project_info_read_1(project_info_members(v)) == Some((v.name, v.version)),
{
    let m = project_info_members(v);
    assert(member(m, "name"@) == match v.name {
        Some(x) => Some(JsonView::String(x)),
        None => None,
    }) by {
        lemma_member_rules();
        lemma_project_info_keys();
    }
    assert(member(m, "version"@) == match v.version {
        Some(x) => Some(JsonView::String(x)),
        None => None,
    }) by {
        lemma_member_rules();
        lemma_project_info_keys();
    }
}

/// A [`ProjectInfo`] is read back from its JSON form.
pub proof fn lemma_project_info_round(v: ProjectInfoView)
    ensures
        project_info_of_json(project_info_json(v)) == Some(v),
{
    lemma_project_info_read_1(v);
}

/// What part 1 of the members of a [`Diagnostic`] holds, where each of them
/// can be read.
pub open spec fn diagnostic_read_1(
    m: Seq<(Seq<char>, JsonView)>,
) -> Option<(Seq<char>, DiagnosticSeverity, Seq<char>, usize)> {
    let code = match member(m, "code"@) {
        Some(j) => text_of(j),
        None => None,
    };
    let severity = match member(m, "severity"@) {
        Some(j) => severity_of(j),
        None => None,
    };
    let file = match member(m, "file"@) {
        Some(j) => text_of(j),
        None => None,
    };
    let line = match member(m, "line"@) {
        Some(j) => count_of(j),
        None => None,
    };
    if code is Some && severity is Some && file is Some && line is Some {
        Some((code->0, severity->0, file->0, line->0))
    } else {
        None
    }
}

/// What part 2 of the members of a [`Diagnostic`] holds, where each of them
/// can be read.
pub open spec fn diagnostic_read_2(m: Seq<(Seq<char>, JsonView)>) -> Option<(usize, Seq<char>)> {
    let col = match member(m, "col"@) {
        Some(j) => count_of(j),
        None => None,
    };
    let message = match member(m, "message"@) {
        Some(j) => text_of(j),
        None => None,
    };
    if col is Some && message is Some {
        Some((col->0, message->0))
    } else {
        None
    }
}

/// The [`Diagnostic`] that a JSON value stands for: an object in which every
/// key that must be
/// there has a value of the right shape, and every other key has one or is
/// missing.
pub open spec fn diagnostic_of_json(j: JsonView) -> Option<DiagnosticView> {
    match j {
        JsonView::Object(m) => match (diagnostic_read_1(m), diagnostic_read_2(m)) {
            (Some(a), Some(b)) => Some(
                (DiagnosticView {
                    code: a.0,
                    severity: a.1,
                    file: a.2,
                    line: a.3,
                    col: b.0,
                    message: b.1,
                }),
            ),
            _ => None,
        },
        _ => None,
    }
}

/// The list of [`Diagnostic`] that the items stand for, where each of them
/// stands for one.
pub open spec fn diagnostic_list_of(items: Seq<JsonView>) -> Option<Seq<DiagnosticView>> {
    if forall|i: int| 0 <= i < items.len() ==> (#[trigger] diagnostic_of_json(items[i])) is Some {
        Some(Seq::new(items.len(), |i: int| diagnostic_of_json(items[i])->0))
    } else {
        None
    }
}

/// The list of [`Diagnostic`] that a JSON list stands for.
pub open spec fn diagnostic_list_of_json(j: JsonView) -> Option<Seq<DiagnosticView>> {
    match j {
        JsonView::Array(items) => diagnostic_list_of(items),
        _ => None,
    }
}

fn diagnostic_get_1(
    m: &Vec<JsonMember>,
) -> (r: Option<(String, DiagnosticSeverity, String, usize)>)
    ensures
        r.deep_view() == diagnostic_read_1(m.deep_view()),
{
    let code = match get(m, "code") {
        Some(j) => match text_from_json(j) {
            Some(x) => x,
            None => {
                return None;
            },
        },
        None => {
            return None;
        },
    };
    let severity = match get(m, "severity") {
        Some(j) => match severity_from_json(j) {
            Some(x) => x,
            None => {
                return None;
            },
        },
        None => {
            return None;
        },
    };
    let file = match get(m, "file") {
        Some(j) => match text_from_json(j) {
            Some(x) => x,
            None => {
                return None;
            },
        },
        None => {
            return None;
        },
    };
    let line = match get(m, "line") {
        Some(j) => match count_from_json(j) {
            Some(x) => x,
            None => {
                return None;
            },
        },
        None => {
            return None;
        },
    };
    Some((code, severity, file, line))
}

fn diagnostic_get_2(m: &Vec<JsonMember>) -> (r: Option<(usize, String)>)
    ensures
        r.deep_view() == diagnostic_read_2(m.deep_view()),
{
    let col = match get(m, "col") {
        Some(j) => match count_from_json(j) {
            Some(x) => x,
            None => {
                return None;
            },
        },
        None => {
            return None;
        },
    };
    let message = match get(m, "message") {
        Some(j) => match text_from_json(j) {
            Some(x) => x,
            None => {
                return None;
            },
        },
        None => {
            return None;
        },
    };
    Some((col, message))
}

/// Reads a [`Diagnostic`] from its JSON form.
pub fn diagnostic_from_json(j: &JsonValue) -> (r: Option<Diagnostic>)
    ensures
        r.deep_view() == diagnostic_of_json(j.deep_view()),
{
    match j {
        JsonValue::Object(m) => {
            proof {
                lemma_json_object(*m);
            }
            let a = match diagnostic_get_1(m) {
                Some(x) => x,
                None => {
                    return None;
                },
            };
            let b = match diagnostic_get_2(m) {
                Some(x) => x,
                None => {
                    return None;
                },
            };
            Some(
                Diagnostic {
                    code: a.0,
                    severity: a.1,
                    file: a.2,
                    line: a.3,
                    col: b.0,
                    message: b.1,
                },
            )
        },
        _ => None,
    }
}

/// Reads a list of [`Diagnostic`] from the JSON forms of its items.
pub fn diagnostic_list_from(items: &Vec<JsonValue>) -> (r: Option<Vec<Diagnostic>>)
    ensures
        r.deep_view() == diagnostic_list_of(items.deep_view()),
{
    let mut out: Vec<Diagnostic> = Vec::new();
    let mut i: usize = 0;
    while i < items.len()
        invariant
            i <= items@.len(),
            out@.len() == i,
            forall|k: int|
                0 <= k < i ==> diagnostic_of_json(#[trigger] items.deep_view()[k]) == Some(
                    out@[k].deep_view(),
                ),
        decreases items.len() - i,
    {
        match diagnostic_from_json(&items[i]) {
            Some(x) => {
                out.push(x);
            },
            None => {
                proof {
                    assert(diagnostic_of_json(items.deep_view()[i as int]) is None);
                }
                return None;
            },
        }
        i += 1;
    }
    proof {
        assert(out.deep_view() =~= diagnostic_list_of(items.deep_view())->0);
    }
    Some(out)
}

/// Reads a list of [`Diagnostic`] from its JSON form.
pub fn diagnostic_list_from_json(j: &JsonValue) -> (r: Option<Vec<Diagnostic>>)
    ensures
        r.deep_view() == diagnostic_list_of_json(j.deep_view()),
{
    match j {
        JsonValue::Array(items) => {
            proof {
                lemma_json_array(*items);
            }
            diagnostic_list_from(items)
        },
        _ => None,
    }
}

/// The lengths and the letters that tell the keys of a [`Diagnostic`] apart.
pub proof fn lemma_diagnostic_keys()
    ensures
        "code"@.len() == 4,
        "severity"@.len() == 8,
        "file"@.len() == 4,
        "line"@.len() == 4,
        "col"@.len() == 3,
        "message"@.len() == 7,
        "code"@[0] == 'c',
        "file"@[0] == 'f',
        "line"@[0] == 'l',
{
    reveal_strlit("code");
    reveal_strlit("severity");
    reveal_strlit("file");
    reveal_strlit("line");
    reveal_strlit("col");
    reveal_strlit("message");
}

/// Part 1 of a [`Diagnostic`] is read back from the members of its JSON form.
pub proof fn lemma_diagnostic_read_1(v: DiagnosticView)
    ensures
        diagnostic_read_1(diagnostic_members(v)) == Some((v.code, v.severity, v.file, v.line)),
{
    let m = diagnostic_members(v);
    assert(member(m, "code"@) == Some(JsonView::String(v.code))) by {
        lemma_member_rules();
        lemma_diagnostic_keys();
    }
    assert(member(m, "severity"@) == Some(JsonView::String(severity_word(v.severity)))) by {
        lemma_member_rules();
        lemma_diagnostic_keys();
    }
    assert(member(m, "file"@) == Some(JsonView::String(v.file))) by {
        lemma_member_rules();
        lemma_diagnostic_keys();
    }
    assert(member(m, "line"@) == Some(JsonView::Int(v.line as int))) by {
        lemma_member_rules();
        lemma_diagnostic_keys();
    }
    lemma_severity_round(v.severity);
}

/// Part 2 of a [`Diagnostic`] is read back from the members of its JSON form.
pub proof fn lemma_diagnostic_read_2(v: DiagnosticView)
    ensures
        diagnostic_read_2(diagnostic_members(v)) == Some((v.col, v.message)),
{
    let m = diagnostic_members(v);
    assert(member(m, "col"@) == Some(JsonView::Int(v.col as int))) by {
        lemma_member_rules();
        lemma_diagnostic_keys();
    }
    assert(member(m, "message"@) == Some(JsonView::String(v.message))) by {
        lemma_member_rules();
        lemma_diagnostic_keys();
    }
}

/// A [`Diagnostic`] is read back from its JSON form.
pub proof fn lemma_diagnostic_round(v: DiagnosticView)
    ensures
        diagnostic_of_json(diagnostic_json(v)) == Some(v),
{
    lemma_diagnostic_read_1(v);
    lemma_diagnostic_read_2(v);
}

/// A list of [`Diagnostic`] is read back from its JSON form.
pub proof fn lemma_diagnostic_list_round(list: Seq<DiagnosticView>)
    ensures
        diagnostic_list_of_json(JsonView::Array(diagnostic_json_list(list))) == Some(list),
{
    let items = diagnostic_json_list(list);
    assert forall|i: int| 0 <= i < items.len() implies diagnostic_of_json(#[trigger] items[i]) == Some(
        list[i],
    ) by {
        lemma_diagnostic_round(list[i]);
    }
    assert(diagnostic_list_of(items)->0 =~= list);
}

/// What part 1 of the members of a [`AttributeRegistryEntry`] holds, where
/// each of them can be read.
pub open spec fn attribute_registry_entry_read_1(
    m: Seq<(Seq<char>, JsonView)>,
) -> Option<(Seq<char>, Option<Seq<char>>, Seq<Seq<char>>, Seq<char>)> {
    let name = match member(m, "name"@) {
        Some(j) => text_of(j),
        None => None,
    };
    let description = match member(m, "description"@) {
        Some(j) => match text_of(j) {
            Some(x) => Some(Some(x)),
            None => None,
        },
        None => Some(None),
    };
    let target = match member(m, "target"@) {
        Some(j) => strings_of(j),
        None => None,
    };
    let attr_type = match member(m, "type"@) {
        Some(j) => text_of(j),
        None => None,
    };
    if name is Some && description is Some && target is Some && attr_type is Some {
        Some((name->0, description->0, target->0, attr_type->0))
    } else {
        None
    }
}

/// What part 2 of the members of a [`AttributeRegistryEntry`] holds, where
/// each of them can be read.
pub open spec fn attribute_registry_entry_read_2(
    m: Seq<(Seq<char>, JsonView)>,
) -> Option<(Option<(Seq<char>, Seq<char>)>, bool, Option<AttrArgView>)> {
    let range = match member(m, "range"@) {
        Some(j) => match range_of(j) {
            Some(x) => Some(Some(x)),
            None => None,
        },
        None => Some(None),
    };
    let required = match member(m, "required"@) {
        Some(j) => bool_of(j),
        None => None,
    };
    let default_value = match member(m, "defaultValue"@) {
        Some(j) => match arg_of(j) {
            Some(x) => Some(Some(x)),
            None => None,
        },
        None => Some(None),
    };
    if range is Some && required is Some && default_value is Some {
        Some((range->0, required->0, default_value->0))
    } else {
        None
    }
}

/// The [`AttributeRegistryEntry`] that a JSON value stands for: an object in
/// which every key that must be
/// there has a value of the right shape, and every other key has one or is
/// missing.
pub open spec fn attribute_registry_entry_of_json(
    j: JsonView,
) -> Option<AttributeRegistryEntryView> {
    match j {
        JsonView::Object(m) => match (attribute_registry_entry_read_1(m), attribute_registry_entry_read_2(m)) {
            (Some(a), Some(b)) => Some(
                (AttributeRegistryEntryView {
                    name: a.0,
                    description: a.1,
                    target: a.2,
                    attr_type: a.3,
                    range: b.0,
                    required: b.1,
                    default_value: b.2,
                }),
            ),
            _ => None,
        },
        _ => None,
    }
}

/// The list of [`AttributeRegistryEntry`] that the items stand for, where
/// each of them stands for one.
pub open spec fn attribute_registry_entry_list_of(
    items: Seq<JsonView>,
) -> Option<Seq<AttributeRegistryEntryView>> {
    if forall|i: int| 0 <= i < items.len() ==> (#[trigger] attribute_registry_entry_of_json(items[i])) is Some {
        Some(Seq::new(items.len(), |i: int| attribute_registry_entry_of_json(items[i])->0))
    } else {
        None
    }
}

/// The list of [`AttributeRegistryEntry`] that a JSON list stands for.
pub open spec fn attribute_registry_entry_list_of_json(
    j: JsonView,
) -> Option<Seq<AttributeRegistryEntryView>> {
    match j {
        JsonView::Array(items) => attribute_registry_entry_list_of(items),
        _ => None,
    }
}

fn attribute_registry_entry_get_1(
    m: &Vec<JsonMember>,
) -> (r: Option<(String, Option<String>, Vec<String>, String)>)
    ensures
        r.deep_view() == attribute_registry_entry_read_1(m.deep_view()),
{
    let name = match get(m, "name") {
        Some(j) => match text_from_json(j) {
            Some(x) => x,
            None => {
                return None;
            },
        },
        None => {
            return None;
        },
    };
    let description = match get(m, "description") {
        Some(j) => match text_from_json(j) {
            Some(x) => Some(x),
            None => {
                return None;
            },
        },
        None => None,
    };
    let target = match get(m, "target") {
        Some(j) => match strings_from_json(j) {
            Some(x) => x,
            None => {
                return None;
            },
        },
        None => {
            return None;
        },
    };
    let attr_type = match get(m, "type") {
        Some(j) => match text_from_json(j) {
            Some(x) => x,
            None => {
                return None;
            },
        },
        None => {
            return None;
        },
    };
    Some((name, description, target, attr_type))
}

fn attribute_registry_entry_get_2(
    m: &Vec<JsonMember>,
) -> (r: Option<(Option<(NumberLit, NumberLit)>, bool, Option<AttrArgValue>)>)
    ensures
        r.deep_view() == attribute_registry_entry_read_2(m.deep_view()),
{
    let range = match get(m, "range") {
        Some(j) => match range_from_json(j) {
            Some(x) => Some(x),
            None => {
                return None;
            },
        },
        None => None,
    };
    let required = match get(m, "required") {
        Some(j) => match bool_from_json(j) {
            Some(x) => x,
            None => {
                return None;
            },
        },
        None => {
            return None;
        },
    };
    let default_value = match get(m, "defaultValue") {
        Some(j) => match arg_from_json(j) {
            Some(x) => Some(x),
            None => {
                return None;
            },
        },
        None => None,
    };
    Some((range, required, default_value))
}

/// Reads a [`AttributeRegistryEntry`] from its JSON form.
pub fn attribute_registry_entry_from_json(j: &JsonValue) -> (r: Option<AttributeRegistryEntry>)
    ensures
        r.deep_view() == attribute_registry_entry_of_json(j.deep_view()),
{
    match j {
        JsonValue::Object(m) => {
            proof {
                lemma_json_object(*m);
            }
            let a = match attribute_registry_entry_get_1(m) {
                Some(x) => x,
                None => {
                    return None;
                },
            };
            let b = match attribute_registry_entry_get_2(m) {
                Some(x) => x,
                None => {
                    return None;
                },
            };
            Some(
                AttributeRegistryEntry {
                    name: a.0,
                    description: a.1,
                    target: a.2,
                    attr_type: a.3,
                    range: b.0,
                    required: b.1,
                    default_value: b.2,
                },
            )
        },
        _ => None,
    }
}

/// Reads a list of [`AttributeRegistryEntry`] from the JSON forms of its items.
pub fn attribute_registry_entry_list_from(
    items: &Vec<JsonValue>,
) -> (r: Option<Vec<AttributeRegistryEntry>>)
    ensures
        r.deep_view() == attribute_registry_entry_list_of(items.deep_view()),
{
    let mut out: Vec<AttributeRegistryEntry> = Vec::new();
    let mut i: usize = 0;
    while i < items.len()
        invariant
            i <= items@.len(),
            out@.len() == i,
            forall|k: int|
                0 <= k < i ==> attribute_registry_entry_of_json(#[trigger] items.deep_view()[k]) == Some(
                    out@[k].deep_view(),
                ),
        decreases items.len() - i,
    {
        match attribute_registry_entry_from_json(&items[i]) {
            Some(x) => {
                out.push(x);
            },
            None => {
                proof {
                    assert(attribute_registry_entry_of_json(items.deep_view()[i as int]) is None);
                }
                return None;
            },
        }
        i += 1;
    }
    proof {
        assert(out.deep_view() =~= attribute_registry_entry_list_of(items.deep_view())->0);
    }
    Some(out)
}

/// Reads a list of [`AttributeRegistryEntry`] from its JSON form.
pub fn attribute_registry_entry_list_from_json(
    j: &JsonValue,
) -> (r: Option<Vec<AttributeRegistryEntry>>)
    ensures
        r.deep_view() == attribute_registry_entry_list_of_json(j.deep_view()),
{
    match j {
        JsonValue::Array(items) => {
            proof {
                lemma_json_array(*items);
            }
            attribute_registry_entry_list_from(items)
        },
        _ => None,
    }
}

/// The lengths and the letters that tell the keys of a
/// [`AttributeRegistryEntry`] apart.
pub proof fn lemma_attribute_registry_entry_keys()
    ensures
        "name"@.len() == 4,
        "description"@.len() == 11,
        "target"@.len() == 6,
        "type"@.len() == 4,
        "range"@.len() == 5,
        "required"@.len() == 8,
        "defaultValue"@.len() == 12,
        "name"@[0] == 'n',
        "type"@[0] == 't',
{
    reveal_strlit("name");
    reveal_strlit("description");
    reveal_strlit("target");
    reveal_strlit("type");
    reveal_strlit("range");
    reveal_strlit("required");
    reveal_strlit("defaultValue");
}

/// Part 1 of a [`AttributeRegistryEntry`] is read back from the members of
/// its JSON form.
pub proof fn lemma_attribute_registry_entry_read_1(v: AttributeRegistryEntryView)
    ensures
        attribute_registry_entry_read_1(attribute_registry_entry_members(v)) == Some(
            (v.name, v.description, v.target, v.attr_type),
        ),
{
    let m = attribute_registry_entry_members(v);
    assert(member(m, "name"@) == Some(JsonView::String(v.name))) by {
        lemma_member_rules();
        lemma_attribute_registry_entry_keys();
    }
    assert(member(m, "description"@) == match v.description {
        Some(x) => Some(JsonView::String(x)),
        None => None,
    }) by {
        lemma_member_rules();
        lemma_attribute_registry_entry_keys();
    }
    assert(member(m, "target"@) == Some(JsonView::Array(string_values(v.target)))) by {
        lemma_member_rules();
        lemma_attribute_registry_entry_keys();
    }
    assert(member(m, "type"@) == Some(JsonView::String(v.attr_type))) by {
        lemma_member_rules();
        lemma_attribute_registry_entry_keys();
    }
    lemma_strings_round(v.target);
}

/// Part 2 of a [`AttributeRegistryEntry`] is read back from the members of
/// its JSON form.
pub proof fn lemma_attribute_registry_entry_read_2(v: AttributeRegistryEntryView)
    ensures
        attribute_registry_entry_read_2(attribute_registry_entry_members(v)) == Some(
            (v.range, v.required, v.default_value),
        ),
{
    let m = attribute_registry_entry_members(v);
    assert(member(m, "range"@) == match v.range {
        Some(x) => Some(JsonView::Array(seq![JsonView::Number(x.0), JsonView::Number(x.1)])),
        None => None,
    }) by {
        lemma_member_rules();
        lemma_attribute_registry_entry_keys();
    }
    assert(member(m, "required"@) == Some(JsonView::Bool(v.required))) by {
        lemma_member_rules();
        lemma_attribute_registry_entry_keys();
    }
    assert(member(m, "defaultValue"@) == match v.default_value {
        Some(x) => Some(arg_json(x)),
        None => None,
    }) by {
        lemma_member_rules();
        lemma_attribute_registry_entry_keys();
    }
}

/// A [`AttributeRegistryEntry`] is read back from its JSON form.
pub proof fn lemma_attribute_registry_entry_round(v: AttributeRegistryEntryView)
    ensures
        attribute_registry_entry_of_json(attribute_registry_entry_json(v)) == Some(v),
{
    lemma_attribute_registry_entry_read_1(v);
    lemma_attribute_registry_entry_read_2(v);
}

/// A list of [`AttributeRegistryEntry`] is read back from its JSON form.
pub proof fn lemma_attribute_registry_entry_list_round(list: Seq<AttributeRegistryEntryView>)
    ensures
        attribute_registry_entry_list_of_json(JsonView::Array(attribute_registry_entry_json_list(list))) == Some(list),
{
    let items = attribute_registry_entry_json_list(list);
    assert forall|i: int| 0 <= i < items.len() implies attribute_registry_entry_of_json(#[trigger] items[i]) == Some(
        list[i],
    ) by {
        lemma_attribute_registry_entry_round(list[i]);
    }
    assert(attribute_registry_entry_list_of(items)->0 =~= list);
}

/// What part 1 of the members of a [`M3lAst`] holds, where each of them can
/// be read.
pub open spec fn m3l_ast_read_1(
    m: Seq<(Seq<char>, JsonView)>,
) -> Option<(Seq<char>, Seq<char>, ProjectInfoView, Seq<Seq<char>>)> {
    let parser_version = match member(m, "parserVersion"@) {
        Some(j) => text_of(j),
        None => None,
    };
    let ast_version = match member(m, "astVersion"@) {
        Some(j) => text_of(j),
        None => None,
    };
    let project = match member(m, "project"@) {
        Some(j) => project_info_of_json(j),
        None => None,
    };
    let sources = match member(m, "sources"@) {
        Some(j) => strings_of(j),
        None => None,
    };
    if parser_version is Some && ast_version is Some && project is Some && sources is Some {
        Some((parser_version->0, ast_version->0, project->0, sources->0))
    } else {
        None
    }
}

/// What part 2 of the members of a [`M3lAst`] holds, where each of them can
/// be read.
pub open spec fn m3l_ast_read_2(
    m: Seq<(Seq<char>, JsonView)>,
) -> Option<(Seq<ModelNodeView>, Seq<EnumNodeView>, Seq<ModelNodeView>, Seq<ModelNodeView>)> {
    let models = match member(m, "models"@) {
        Some(j) => model_node_list_of_json(j),
        None => None,
    };
    let enums = match member(m, "enums"@) {
        Some(j) => enum_node_list_of_json(j),
        None => None,
    };
    let interfaces = match member(m, "interfaces"@) {
        Some(j) => model_node_list_of_json(j),
        None => None,
    };
    let views = match member(m, "views"@) {
        Some(j) => model_node_list_of_json(j),
        None => None,
    };
    if models is Some && enums is Some && interfaces is Some && views is Some {
        Some((models->0, enums->0, interfaces->0, views->0))
    } else {
        None
    }
}

/// What part 3 of the members of a [`M3lAst`] holds, where each of them can
/// be read.
pub open spec fn m3l_ast_read_3(
    m: Seq<(Seq<char>, JsonView)>,
) -> Option<(Seq<AttributeRegistryEntryView>, Seq<DiagnosticView>, Seq<DiagnosticView>)> {
    let attribute_registry = match member(m, "attributeRegistry"@) {
        Some(j) => attribute_registry_entry_list_of_json(j),
        None => None,
    };
    let errors = match member(m, "errors"@) {
        Some(j) => diagnostic_list_of_json(j),
        None => None,
    };
    let warnings = match member(m, "warnings"@) {
        Some(j) => diagnostic_list_of_json(j),
        None => None,
    };
    if attribute_registry is Some && errors is Some && warnings is Some {
        Some((attribute_registry->0, errors->0, warnings->0))
    } else {
        None
    }
}

/// The [`M3lAst`] that a JSON value stands for: an object in which every key
/// that must be
/// there has a value of the right shape, and every other key has one or is
/// missing.
pub open spec fn m3l_ast_of_json(j: JsonView) -> Option<M3lAstView> {
    match j {
        JsonView::Object(m) => match (m3l_ast_read_1(m), m3l_ast_read_2(m), m3l_ast_read_3(m)) {
            (Some(a), Some(b), Some(c)) => Some(
                (M3lAstView {
                    parser_version: a.0,
                    ast_version: a.1,
                    project: a.2,
                    sources: a.3,
                    models: b.0,
                    enums: b.1,
                    interfaces: b.2,
                    views: b.3,
                    attribute_registry: c.0,
                    errors: c.1,
                    warnings: c.2,
                }),
            ),
            _ => None,
        },
        _ => None,
    }
}

fn m3l_ast_get_1(m: &Vec<JsonMember>) -> (r: Option<(String, String, ProjectInfo, Vec<String>)>)
    ensures
        r.deep_view() == m3l_ast_read_1(m.deep_view()),
{
    let parser_version = match get(m, "parserVersion") {
        Some(j) => match text_from_json(j) {
            Some(x) => x,
            None => {
                return None;
            },
        },
        None => {
            return None;
        },
    };
    let ast_version = match get(m, "astVersion") {
        Some(j) => match text_from_json(j) {
            Some(x) => x,
            None => {
                return None;
            },
        },
        None => {
            return None;
        },
    };
    let project = match get(m, "project") {
        Some(j) => match project_info_from_json(j) {
            Some(x) => x,
            None => {
                return None;
            },
        },
        None => {
            return None;
        },
    };
    let sources = match get(m, "sources") {
        Some(j) => match strings_from_json(j) {
            Some(x) => x,
            None => {
                return None;
            },
        },
        None => {
            return None;
        },
    };
    Some((parser_version, ast_version, project, sources))
}

fn m3l_ast_get_2(
    m: &Vec<JsonMember>,
) -> (r: Option<(Vec<ModelNode>, Vec<EnumNode>, Vec<ModelNode>, Vec<ModelNode>)>)
    ensures
        r.deep_view() == m3l_ast_read_2(m.deep_view()),
{
    let models = match get(m, "models") {
        Some(j) => match model_node_list_from_json(j) {
            Some(x) => x,
            None => {
                return None;
            },
        },
        None => {
            return None;
        },
    };
    let enums = match get(m, "enums") {
        Some(j) => match enum_node_list_from_json(j) {
            Some(x) => x,
            None => {
                return None;
            },
        },
        None => {
            return None;
        },
    };
    let interfaces = match get(m, "interfaces") {
        Some(j) => match model_node_list_from_json(j) {
            Some(x) => x,
            None => {
                return None;
            },
        },
        None => {
            return None;
        },
    };
    let views = match get(m, "views") {
        Some(j) => match model_node_list_from_json(j) {
            Some(x) => x,
            None => {
                return None;
            },
        },
        None => {
            return None;
        },
    };
    Some((models, enums, interfaces, views))
}

fn m3l_ast_get_3(
    m: &Vec<JsonMember>,
) -> (r: Option<(Vec<AttributeRegistryEntry>, Vec<Diagnostic>, Vec<Diagnostic>)>)
    ensures
        r.deep_view() == m3l_ast_read_3(m.deep_view()),
{
    let attribute_registry = match get(m, "attributeRegistry") {
        Some(j) => match attribute_registry_entry_list_from_json(j) {
            Some(x) => x,
            None => {
                return None;
            },
        },
        None => {
            return None;
        },
    };
    let errors = match get(m, "errors") {
        Some(j) => match diagnostic_list_from_json(j) {
            Some(x) => x,
            None => {
                return None;
            },
        },
        None => {
            return None;
        },
    };
    let warnings = match get(m, "warnings") {
        Some(j) => match diagnostic_list_from_json(j) {
            Some(x) => x,
            None => {
                return None;
            },
        },
        None => {
            return None;
        },
    };
    Some((attribute_registry, errors, warnings))
}

/// Reads a [`M3lAst`] from its JSON form.
pub fn m3l_ast_from_json(j: &JsonValue) -> (r: Option<M3lAst>)
    ensures
        r.deep_view() == m3l_ast_of_json(j.deep_view()),
{
    match j {
        JsonValue::Object(m) => {
            proof {
                lemma_json_object(*m);
            }
            let a = match m3l_ast_get_1(m) {
                Some(x) => x,
                None => {
                    return None;
                },
            };
            let b = match m3l_ast_get_2(m) {
                Some(x) => x,
                None => {
                    return None;
                },
            };
            let c = match m3l_ast_get_3(m) {
                Some(x) => x,
                None => {
                    return None;
                },
            };
            Some(
                M3lAst {
                    parser_version: a.0,
                    ast_version: a.1,
                    project: a.2,
                    sources: a.3,
                    models: b.0,
                    enums: b.1,
                    interfaces: b.2,
                    views: b.3,
                    attribute_registry: c.0,
                    errors: c.1,
                    warnings: c.2,
                },
            )
        },
        _ => None,
    }
}

/// Whether no custom section of a model, an interface or a view of the tree
/// has the key of
/// one of the four fixed buckets.
pub open spec fn plain_tree(v: M3lAstView) -> bool {
    (forall|i: int| 0 <= i < v.models.len() ==> plain_model(#[trigger] v.models[i]))
    && (forall|i: int| 0 <= i < v.interfaces.len() ==> plain_model(#[trigger] v.interfaces[i]))
    && (forall|i: int| 0 <= i < v.views.len() ==> plain_model(#[trigger] v.views[i]))
}

/// The lengths and the letters that tell the keys of a [`M3lAst`] apart.
pub proof fn lemma_m3l_ast_keys()
    ensures
        "parserVersion"@.len() == 13,
        "astVersion"@.len() == 10,
        "project"@.len() == 7,
        "sources"@.len() == 7,
        "models"@.len() == 6,
        "enums"@.len() == 5,
        "interfaces"@.len() == 10,
        "views"@.len() == 5,
        "attributeRegistry"@.len() == 17,
        "errors"@.len() == 6,
        "warnings"@.len() == 8,
        "astVersion"@[0] == 'a',
        "interfaces"@[0] == 'i',
        "project"@[0] == 'p',
        "sources"@[0] == 's',
        "models"@[0] == 'm',
        "errors"@[0] == 'e',
        "enums"@[0] == 'e',
        "views"@[0] == 'v',
{
    reveal_strlit("parserVersion");
    reveal_strlit("astVersion");
    reveal_strlit("project");
    reveal_strlit("sources");
    reveal_strlit("models");
    reveal_strlit("enums");
    reveal_strlit("interfaces");
    reveal_strlit("views");
    reveal_strlit("attributeRegistry");
    reveal_strlit("errors");
    reveal_strlit("warnings");
}

/// Part 1 of a [`M3lAst`] is read back from the members of its JSON form.
pub proof fn lemma_m3l_ast_read_1(v: M3lAstView)
    ensures
        m3l_ast_read_1(m3l_ast_members(v)) == Some(
            (v.parser_version, v.ast_version, v.project, v.sources),
        ),
{
    let m = m3l_ast_members(v);
    assert(member(m, "parserVersion"@) == Some(JsonView::String(v.parser_version))) by {
        lemma_member_rules();
        lemma_m3l_ast_keys();
    }
    assert(member(m, "astVersion"@) == Some(JsonView::String(v.ast_version))) by {
        lemma_member_rules();
        lemma_m3l_ast_keys();
    }
    assert(member(m, "project"@) == Some(project_info_json(v.project))) by {
        lemma_member_rules();
        lemma_m3l_ast_keys();
    }
    assert(member(m, "sources"@) == Some(JsonView::Array(string_values(v.sources)))) by {
        lemma_member_rules();
        lemma_m3l_ast_keys();
    }
    lemma_project_info_round(v.project);
    lemma_strings_round(v.sources);
}

/// Part 2 of a [`M3lAst`] is read back from the members of its JSON form.
pub proof fn lemma_m3l_ast_read_2(v: M3lAstView)
    requires
        plain_tree(v),
    ensures
        m3l_ast_read_2(m3l_ast_members(v)) == Some((v.models, v.enums, v.interfaces, v.views)),
{
    let m = m3l_ast_members(v);
    assert(member(m, "models"@) == Some(JsonView::Array(model_node_json_list(v.models)))) by {
        lemma_member_rules();
        lemma_m3l_ast_keys();
    }
    assert(member(m, "enums"@) == Some(JsonView::Array(enum_node_json_list(v.enums)))) by {
        lemma_member_rules();
        lemma_m3l_ast_keys();
    }
    assert(member(m, "interfaces"@) == Some(
        JsonView::Array(model_node_json_list(v.interfaces)),
    )) by {
        lemma_member_rules();
        lemma_m3l_ast_keys();
    }
    assert(member(m, "views"@) == Some(JsonView::Array(model_node_json_list(v.views)))) by {
        lemma_member_rules();
        lemma_m3l_ast_keys();
    }
    lemma_model_node_list_round(v.models);
    lemma_enum_node_list_round(v.enums);
    lemma_model_node_list_round(v.interfaces);
    lemma_model_node_list_round(v.views);
}

/// Part 3 of a [`M3lAst`] is read back from the members of its JSON form.
pub proof fn lemma_m3l_ast_read_3(v: M3lAstView)
    ensures
        m3l_ast_read_3(m3l_ast_members(v)) == Some((v.attribute_registry, v.errors, v.warnings)),
{
    let m = m3l_ast_members(v);
    assert(member(m, "attributeRegistry"@) == Some(
        JsonView::Array(attribute_registry_entry_json_list(v.attribute_registry)),
    )) by {
        lemma_member_rules();
        lemma_m3l_ast_keys();
    }
    assert(member(m, "errors"@) == Some(JsonView::Array(diagnostic_json_list(v.errors)))) by {
        lemma_member_rules();
        lemma_m3l_ast_keys();
    }
    assert(member(m, "warnings"@) == Some(JsonView::Array(diagnostic_json_list(v.warnings)))) by {
        lemma_member_rules();
        lemma_m3l_ast_keys();
    }
    lemma_attribute_registry_entry_list_round(v.attribute_registry);
    lemma_diagnostic_list_round(v.errors);
    lemma_diagnostic_list_round(v.warnings);
}

/// A [`M3lAst`] is read back from its JSON form.
pub proof fn lemma_m3l_ast_round(v: M3lAstView)
    requires
        plain_tree(v),
    ensures
        m3l_ast_of_json(m3l_ast_json(v)) == Some(v),
{
    lemma_m3l_ast_read_1(v);
    lemma_m3l_ast_read_2(v);
    lemma_m3l_ast_read_3(v);
}
/// Writing a tree, reading it back and writing it again gives what was
/// written the first time, since what is read back is the tree itself. This
/// holds of every tree in which no custom section has the key of one of the
/// four fixed buckets; with such a key the JSON form of the sections holds
/// that key twice, and the custom section is lost on the way back.
pub proof fn lemma_written_read_written(ast: M3lAstView)
    requires
        plain_tree(ast),
    ensures
        m3l_ast_of_json(m3l_ast_json(ast)) == Some(ast),
        m3l_ast_json(m3l_ast_of_json(m3l_ast_json(ast))->0) == m3l_ast_json(ast),
{
    lemma_m3l_ast_round(ast);
}

} // verus!
