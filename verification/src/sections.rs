//! The lines of a model that are no plain fields: directives, the entries of
//! the sections `Indexes`, `Relations`, `Metadata` and `Behaviors`, the
//! source and the refresh policy of a view, and the entries of custom
//! sections.

use vstd::prelude::*;
use crate::field_line::{
    apply_type_and_attrs, group_or_empty, text_or_empty, type_and_attrs,
};
use crate::field_node::{
    apply_extended_attribute, build_field_node, extended, field_node,
};
use crate::grammar::{RE_QUOTE_STR, RE_TYPE_PART};
use crate::pattern::{captures, found, group_text, regex_captures};
use crate::text::{
    contains_char, from_chars, slice, str_eq, to_chars, trim, trim_chars,
};
use crate::types::{
    lemma_field_view_fields, lemma_json_object, EnumNode, EnumNodeView, EnumValue, EnumValueView,
    FieldNodeView,
    clone_opt_string, field_view, FieldKind, FieldNode, JoinDef, JsonMember, JsonValue, JsonView,
    ModelNode, ModelNodeView, ModelType, RefreshDef, RefreshDefView, SectionsView, TokenData,
    TokenDataView, ViewSourceDef, ViewSourceDefView,
};
use crate::values::{
    add_listed, args_json, array_value, attr_args_to_json, join_value, loc_entry, loc_json,
    metadata_value, nested_value, object, parse_array_value, parse_join_value,
    parse_metadata_value, parse_nested_value, push_member, set_member, text_json, with_listed,
    with_member,
};

verus! {

/// The first of two optional texts that is there.
pub open spec fn first_of(a: Option<Seq<char>>, b: Option<Seq<char>>) -> Option<Seq<char>> {
    match a {
        Some(x) => Some(x),
        None => b,
    }
}

/// The name in the data of a token, or the empty string.
pub fn token_name(data: &TokenData) -> (r: String)
    ensures
        r@ == text_or_empty(data.deep_view().name),
{
    match &data.name {
        Some(n) => n.clone(),
        None => String::new(),
    }
}

fn first_text(a: &Option<String>, b: &Option<String>) -> (r: String)
    ensures
        r@ == text_or_empty(first_of(a.deep_view(), b.deep_view())),
{
    match a {
        Some(x) => x.clone(),
        None => match b {
            Some(y) => y.clone(),
            None => String::new(),
        },
    }
}

/// `s` without the list marks `- ` at its start.
pub open spec fn without_marks(s: Seq<char>) -> Seq<char>
    decreases s.len(),
{
    if s.len() >= 2 && s[0] == '-' && s[1] == ' ' {
        without_marks(s.subrange(2, s.len() as int))
    } else {
        s
    }
}

/// The text of a list item: its line, trimmed, without the list marks.
pub open spec fn item_text(raw: Seq<char>) -> Seq<char> {
    without_marks(trim(raw))
}

/// The text of the list item on the line `raw`.
pub fn read_item_text(raw: &str) -> (r: Vec<char>)
    ensures
        r@ == item_text(raw@),
{
    let v = trim_chars(&to_chars(raw));
    let n = v.len();
    let mut i: usize = 0;
    proof {
        assert(v@.subrange(0, n as int) =~= v@);
    }
    while n - i >= 2 && v[i] == '-' && v[i + 1] == ' '
        invariant
            i <= n == v@.len(),
            without_marks(v@.subrange(i as int, n as int)) == without_marks(v@),
        decreases n - i,
    {
        proof {
            let t = v@.subrange(i as int, n as int);
            assert(t.subrange(2, t.len() as int) =~= v@.subrange(i + 2, n as int));
        }
        i += 2;
    }
    slice(&v, i, n)
}

/// The names that set the source of a view.
pub open spec fn is_source_name(name: Seq<char>) -> bool {
    name == "from"@ || name == "where"@ || name == "order_by"@ || name == "group_by"@ || name
        == "join"@
}

/// Whether `name` is one of `from`, `where`, `order_by`, `group_by`, `join`.
pub fn is_source_directive(name: &str) -> (r: bool)
    ensures
        r == is_source_name(name@),
{
    str_eq(name, "from") || str_eq(name, "where") || str_eq(name, "order_by") || str_eq(
        name,
        "group_by",
    ) || str_eq(name, "join")
}

/// A source of a view with nothing set.
pub open spec fn empty_source() -> ViewSourceDefView {
    ViewSourceDefView {
        from: None,
        joins: None,
        where_clause: None,
        order_by: None,
        group_by: None,
        raw_sql: None,
        language_hint: None,
    }
}

/// A source of a view with nothing set.
pub fn new_source() -> (r: ViewSourceDef)
    ensures
        r.deep_view() == empty_source(),
{
    ViewSourceDef {
        from: None,
        joins: None,
        where_clause: None,
        order_by: None,
        group_by: None,
        raw_sql: None,
        language_hint: None,
    }
}

/// The source with what the line `name: value` sets in it: the value is the
/// description of the line, or else its type; each `join` adds a join.
pub open spec fn with_source_directive(def: ViewSourceDefView, data: TokenDataView) -> ViewSourceDefView {
    let name = text_or_empty(data.name);
    let value = text_or_empty(first_of(data.description, data.field_type));
    if name == "from"@ {
        ViewSourceDefView { from: Some(value), ..def }
    } else if name == "where"@ {
        ViewSourceDefView { where_clause: Some(value), ..def }
    } else if name == "order_by"@ {
        ViewSourceDefView { order_by: Some(value), ..def }
    } else if name == "group_by"@ {
        ViewSourceDefView { group_by: Some(array_value(value)), ..def }
    } else if name == "join"@ {
        ViewSourceDefView {
            joins: Some(
                match def.joins {
                    Some(j) => j.push(join_value(value)),
                    None => seq![join_value(value)],
                },
            ),
            ..def
        }
    } else {
        def
    }
}

/// Sets in `def` what a line of the source section says.
pub fn set_source_directive(def: &mut ViewSourceDef, data: &TokenData)
    ensures
        final(def).deep_view() == with_source_directive(old(def).deep_view(), data.deep_view()),
{
    let name = token_name(data);
    let value = first_text(&data.description, &data.field_type);
    if str_eq(name.as_str(), "from") {
        def.from = Some(value);
    } else if str_eq(name.as_str(), "where") {
        def.where_clause = Some(value);
    } else if str_eq(name.as_str(), "order_by") {
        def.order_by = Some(value);
    } else if str_eq(name.as_str(), "group_by") {
        def.group_by = Some(parse_array_value(&to_chars(value.as_str())));
    } else if str_eq(name.as_str(), "join") {
        let join = parse_join_value(&to_chars(value.as_str()));
        let ghost before = def.joins.deep_view();
        let mut joins: Vec<JoinDef> = Vec::new();
        match def.joins.take() {
            Some(j) => {
                joins = j;
            },
            None => {
                proof {
                    assert(joins.deep_view() =~= Seq::empty());
                }
            },
        }
        let ghost list = joins.deep_view();
        joins.push(join);
        proof {
            assert(joins.deep_view() =~= list.push(join.deep_view()));
            assert(Seq::<crate::types::JoinDefView>::empty().push(join.deep_view()) =~= seq![
                join.deep_view(),
            ]);
        }
        def.joins = Some(joins);
    }
}

/// The member `key` with the value `value`, where there is one.
pub open spec fn opt_member(key: Seq<char>, value: Option<JsonView>) -> Seq<(Seq<char>, JsonView)> {
    match value {
        Some(v) => seq![(key, v)],
        None => Seq::empty(),
    }
}

/// The model with the directive of a line added to its sections. `@index`
/// and `@unique` make an index, `@relation` a relation, `@behavior` a
/// behavior; any other directive goes to the custom section of its name.
/// `raw` is the text of the line, `line` its number.
pub open spec fn with_directive(
    m: ModelNodeView,
    data: TokenDataView,
    raw: Seq<char>,
    line: usize,
    file: Seq<char>,
) -> ModelNodeView {
    if data.attributes.len() == 0 {
        m
    } else {
        let a = data.attributes[0];
        let text = ("raw"@, JsonView::String(trim(raw)));
        let args = opt_member(
            "args"@,
            if a.args.len() > 0 {
                Some(args_json(a.args))
            } else {
                None
            },
        );
        let kind = ("type"@, JsonView::String("directive"@));
        let loc = ("loc"@, loc_entry(file, line));
        if a.name == "index"@ || a.name == "unique"@ {
            let unique = ("unique"@, JsonView::Bool(a.name == "unique"@));
            ModelNodeView {
                sections: SectionsView {
                    indexes: m.sections.indexes.push(
                        JsonView::Object(seq![kind, text] + args + seq![unique, loc]),
                    ),
                    ..m.sections
                },
                ..m
            }
        } else if a.name == "relation"@ {
            ModelNodeView {
                sections: SectionsView {
                    relations: m.sections.relations.push(
                        JsonView::Object(seq![kind, text] + args + seq![loc]),
                    ),
                    ..m.sections
                },
                ..m
            }
        } else if a.name == "behavior"@ || a.name == "behaviors"@ {
            ModelNodeView {
                sections: SectionsView {
                    behaviors: m.sections.behaviors.push(JsonView::Object(seq![text] + args)),
                    ..m.sections
                },
                ..m
            }
        } else {
            ModelNodeView {
                sections: SectionsView {
                    custom: with_listed(
                        m.sections.custom,
                        a.name,
                        JsonView::Object(seq![text] + args),
                    ),
                    ..m.sections
                },
                ..m
            }
        }
    }
}

fn push_json(list: &mut Vec<JsonValue>, value: JsonValue)
    ensures
        final(list).deep_view() == old(list).deep_view().push(value.deep_view()),
{
    let ghost before = list.deep_view();
    list.push(value);
    proof {
        assert(list.deep_view() =~= before.push(value.deep_view()));
    }
}

fn trimmed_text(raw: &str) -> (r: String)
    ensures
        r@ == trim(raw@),
{
    from_chars(&trim_chars(&to_chars(raw)))
}

/// Adds the directive of a line to the sections of `model`.
pub fn handle_directive(data: &TokenData, model: &mut ModelNode, raw: &str, line: usize, file: &str)
    ensures
        final(model).deep_view() == with_directive(
            old(model).deep_view(),
            data.deep_view(),
            raw@,
            line,
            file@,
        ),
{
    if data.attributes.len() == 0 {
        return ;
    }
    let attr = &data.attributes[0];
    proof {
        assert(data.deep_view().attributes[0] == attr.deep_view());
    }
    let name = attr.name.as_str();
    let text = trimmed_text(raw);
    let mut members: Vec<JsonMember> = Vec::new();
    proof {
        assert(members.deep_view() =~= Seq::empty());
    }
    let is_index = str_eq(name, "index") || str_eq(name, "unique");
    let is_relation = str_eq(name, "relation");
    if is_index || is_relation {
        push_member(&mut members, "type", text_json("directive"));
    }
    push_member(&mut members, "raw", JsonValue::String(text));
    if attr.args.len() > 0 {
        push_member(&mut members, "args", attr_args_to_json(&attr.args));
    }
    if is_index {
        push_member(&mut members, "unique", JsonValue::Bool(str_eq(name, "unique")));
        push_member(&mut members, "loc", loc_json(file, line));
        proof {
            let a = data.deep_view().attributes[0];
            let args = opt_member(
                "args"@,
                if a.args.len() > 0 {
                    Some(args_json(a.args))
                } else {
                    None
                },
            );
            assert(members.deep_view() =~= seq![
                ("type"@, JsonView::String("directive"@)),
                ("raw"@, JsonView::String(trim(raw@))),
            ] + args + seq![
                ("unique"@, JsonView::Bool(a.name == "unique"@)),
                ("loc"@, loc_entry(file@, line)),
            ]);
        }
        push_json(&mut model.sections.indexes, object(members));
    } else if is_relation {
        push_member(&mut members, "loc", loc_json(file, line));
        proof {
            let a = data.deep_view().attributes[0];
            let args = opt_member(
                "args"@,
                if a.args.len() > 0 {
                    Some(args_json(a.args))
                } else {
                    None
                },
            );
            assert(members.deep_view() =~= seq![
                ("type"@, JsonView::String("directive"@)),
                ("raw"@, JsonView::String(trim(raw@))),
            ] + args + seq![("loc"@, loc_entry(file@, line))]);
        }
        push_json(&mut model.sections.relations, object(members));
    } else {
        proof {
            let a = data.deep_view().attributes[0];
            let args = opt_member(
                "args"@,
                if a.args.len() > 0 {
                    Some(args_json(a.args))
                } else {
                    None
                },
            );
            assert(members.deep_view() =~= seq![("raw"@, JsonView::String(trim(raw@)))] + args);
        }
        if str_eq(name, "behavior") || str_eq(name, "behaviors") {
            push_json(&mut model.sections.behaviors, object(members));
        } else {
            add_listed(&mut model.sections.custom, name, object(members));
        }
    }
}

/// The source of a view, or an empty one where it has none yet.
pub open spec fn source_of(m: ModelNodeView) -> ViewSourceDefView {
    match m.source_def {
        Some(d) => d,
        None => empty_source(),
    }
}

/// The refresh policy of a view, or an empty one where it has none yet.
pub open spec fn refresh_of(m: ModelNodeView) -> RefreshDefView {
    match m.refresh {
        Some(r) => r,
        None => RefreshDefView { strategy: Seq::empty(), interval: None },
    }
}

/// A text as an optional JSON string.
pub open spec fn opt_json(t: Option<Seq<char>>) -> Option<JsonView> {
    match t {
        Some(x) => Some(JsonView::String(x)),
        None => None,
    }
}

/// What a field line inside the section `section` does to the model, to the
/// mark that the source directives of a view are over, and to the position
/// of the last field. In the source of a view, the directives come first and
/// fields after them; `Refresh` sets the policy of a view; `Indexes`,
/// `Relations`, `Metadata` and `Behaviors` take an entry; any other section
/// is a custom one.
pub open spec fn section_item(
    m: ModelNodeView,
    data: TokenDataView,
    raw: Seq<char>,
    line: usize,
    file: Seq<char>,
    section: Seq<char>,
    kind: FieldKind,
    done: bool,
    last: Option<usize>,
) -> (ModelNodeView, bool, Option<usize>) {
    let name = text_or_empty(data.name);
    let named = ("name"@, JsonView::String(name));
    let loc = ("loc"@, loc_entry(file, line));
    if section == "Source"@ && m.model_type == ModelType::View {
        if is_source_name(name) && !done {
            (
                ModelNodeView {
                    source_def: Some(with_source_directive(source_of(m), data)),
                    ..m
                },
                done,
                last,
            )
        } else {
            (
                ModelNodeView { fields: m.fields.push(field_node(data, line, file, kind)), ..m },
                true,
                Some(m.fields.len() as usize),
            )
        }
    } else if section == "Refresh"@ && m.model_type == ModelType::View {
        let r = refresh_of(m);
        (
            ModelNodeView {
                refresh: Some(
                    if name == "strategy"@ {
                        RefreshDefView { strategy: text_or_empty(data.field_type), ..r }
                    } else if name == "interval"@ {
                        RefreshDefView {
                            interval: Some(
                                text_or_empty(first_of(data.description, data.field_type)),
                            ),
                            ..r
                        }
                    } else {
                        r
                    },
                ),
                ..m
            },
            done,
            last,
        )
    } else if section == "Indexes"@ {
        (
            ModelNodeView {
                sections: SectionsView {
                    indexes: m.sections.indexes.push(
                        JsonView::Object(
                            seq![named] + opt_member("label"@, opt_json(data.label)) + seq![loc],
                        ),
                    ),
                    ..m.sections
                },
                ..m
            },
            done,
            Some(usize::MAX),
        )
    } else if section == "Relations"@ {
        (
            ModelNodeView {
                sections: SectionsView {
                    relations: m.sections.relations.push(
                        JsonView::Object(seq![("raw"@, JsonView::String(item_text(raw))), loc]),
                    ),
                    ..m.sections
                },
                ..m
            },
            done,
            Some(usize::MAX),
        )
    } else if section == "Metadata"@ {
        (
            ModelNodeView {
                sections: SectionsView {
                    metadata: with_member(
                        m.sections.metadata,
                        name,
                        metadata_value(text_or_empty(first_of(data.field_type, data.description))),
                    ),
                    ..m.sections
                },
                ..m
            },
            done,
            last,
        )
    } else if section == "Behaviors"@ {
        (
            ModelNodeView {
                sections: SectionsView {
                    behaviors: m.sections.behaviors.push(
                        JsonView::Object(seq![named, ("raw"@, JsonView::String(trim(raw))), loc]),
                    ),
                    ..m.sections
                },
                ..m
            },
            done,
            last,
        )
    } else {
        (
            ModelNodeView {
                sections: SectionsView {
                    custom: with_listed(
                        m.sections.custom,
                        section,
                        JsonView::Object(
                            seq![named, ("raw"@, JsonView::String(trim(raw)))] + opt_member(
                                "value"@,
                                opt_json(first_of(data.field_type, data.description)),
                            ) + seq![loc],
                        ),
                    ),
                    ..m.sections
                },
                ..m
            },
            done,
            None,
        )
    }
}

fn push_field(model: &mut ModelNode, f: FieldNode)
    ensures
        final(model).deep_view() == (ModelNodeView {
            fields: old(model).deep_view().fields.push(field_view(&f)),
            ..old(model).deep_view()
        }),
        final(model).fields@.len() == old(model).fields@.len() + 1,
{
    let ghost before = model.fields.deep_view();
    model.fields.push(f);
    proof {
        assert(model.fields.deep_view() =~= before.push(field_view(&f)));
    }
}

fn is_view(model: &ModelNode) -> (r: bool)
    ensures
        r == (model.model_type == ModelType::View),
{
    match model.model_type {
        ModelType::View => true,
        _ => false,
    }
}

/// Handles a field line that stands inside a section.
pub fn handle_section_item(
    data: &TokenData,
    model: &mut ModelNode,
    raw: &str,
    line: usize,
    file: &str,
    section: &str,
    current_kind: FieldKind,
    source_directives_done: &mut bool,
    last_field_idx: &mut Option<usize>,
)
    ensures
        (final(model).deep_view(), *final(source_directives_done), *final(last_field_idx))
            == section_item(
            old(model).deep_view(),
            data.deep_view(),
            raw@,
            line,
            file@,
            section@,
            current_kind,
            *old(source_directives_done),
            *old(last_field_idx),
        ),
{
    let name = token_name(data);
    let mut members: Vec<JsonMember> = Vec::new();
    proof {
        assert(members.deep_view() =~= Seq::empty());
    }
    let ghost named = ("name"@, JsonView::String(name@));
    let ghost loc = ("loc"@, loc_entry(file@, line));
    if str_eq(section, "Source") && is_view(model) {
        if is_source_directive(name.as_str()) && !*source_directives_done {
            let mut def = match model.source_def.take() {
                Some(d) => d,
                None => new_source(),
            };
            set_source_directive(&mut def, data);
            model.source_def = Some(def);
        } else {
            *source_directives_done = true;
            let n = model.fields.len();
            push_field(model, build_field_node(data, line, file, current_kind));
            *last_field_idx = Some(n);
        }
    } else if str_eq(section, "Refresh") && is_view(model) {
        let mut refresh = match model.refresh.take() {
            Some(r) => r,
            None => RefreshDef { strategy: String::new(), interval: None },
        };
        if str_eq(name.as_str(), "strategy") {
            refresh.strategy = match &data.field_type {
                Some(t) => t.clone(),
                None => String::new(),
            };
        } else if str_eq(name.as_str(), "interval") {
            refresh.interval = Some(first_text(&data.description, &data.field_type));
        }
        model.refresh = Some(refresh);
    } else if str_eq(section, "Indexes") {
        push_member(&mut members, "name", JsonValue::String(name));
        match &data.label {
            Some(l) => {
                push_member(&mut members, "label", JsonValue::String(l.clone()));
            },
            None => {},
        }
        push_member(&mut members, "loc", loc_json(file, line));
        proof {
            assert(members.deep_view() =~= seq![named] + opt_member(
                "label"@,
                opt_json(data.deep_view().label),
            ) + seq![loc]);
        }
        push_json(&mut model.sections.indexes, object(members));
        *last_field_idx = Some(usize::MAX);
    } else if str_eq(section, "Relations") {
        let text = from_chars(&read_item_text(raw));
        push_member(&mut members, "raw", JsonValue::String(text));
        push_member(&mut members, "loc", loc_json(file, line));
        proof {
            assert(members.deep_view() =~= seq![("raw"@, JsonView::String(item_text(raw@))), loc]);
        }
        push_json(&mut model.sections.relations, object(members));
        *last_field_idx = Some(usize::MAX);
    } else if str_eq(section, "Metadata") {
        let value = first_text(&data.field_type, &data.description);
        let parsed = parse_metadata_value(&to_chars(value.as_str()));
        set_member(&mut model.sections.metadata, name.as_str(), parsed);
    } else if str_eq(section, "Behaviors") {
        push_member(&mut members, "name", JsonValue::String(name));
        push_member(&mut members, "raw", JsonValue::String(trimmed_text(raw)));
        push_member(&mut members, "loc", loc_json(file, line));
        proof {
            assert(members.deep_view() =~= seq![
                named,
                ("raw"@, JsonView::String(trim(raw@))),
                loc,
            ]);
        }
        push_json(&mut model.sections.behaviors, object(members));
    } else {
        push_member(&mut members, "name", JsonValue::String(name));
        push_member(&mut members, "raw", JsonValue::String(trimmed_text(raw)));
        match &data.field_type {
            Some(t) => {
                push_member(&mut members, "value", JsonValue::String(t.clone()));
            },
            None => match &data.description {
                Some(d) => {
                    push_member(&mut members, "value", JsonValue::String(d.clone()));
                },
                None => {},
            },
        }
        push_member(&mut members, "loc", loc_json(file, line));
        proof {
            assert(members.deep_view() =~= seq![named, ("raw"@, JsonView::String(trim(raw@)))]
                + opt_member(
                "value"@,
                opt_json(first_of(data.deep_view().field_type, data.deep_view().description)),
            ) + seq![loc]);
        }
        add_listed(&mut model.sections.custom, section, object(members));
        *last_field_idx = None;
    }
}

/// What the quoted-text pattern finds in an optional value.
pub open spec fn quote_caps(value: Option<Seq<char>>) -> Option<Seq<Option<Seq<char>>>> {
    match value {
        Some(v) => regex_captures(RE_QUOTE_STR@, v),
        None => None,
    }
}

/// The enum value that a nested item `key: value` makes, given what the
/// quoted-text pattern found in the value: a quoted value is the
/// description; any other value is kept as the value where `keep` is set.
pub open spec fn listed_enum_value(
    key: Seq<char>,
    value: Option<Seq<char>>,
    caps: Option<Seq<Option<Seq<char>>>>,
    keep: bool,
) -> EnumValueView {
    EnumValueView {
        name: key,
        description: match caps {
            Some(g) => if value is Some {
                Some(text_or_empty(group_text(g, 1)))
            } else {
                None
            },
            None => None,
        },
        value_type: None,
        value: match value {
            Some(v) => if caps is None && keep {
                Some(JsonView::String(v))
            } else {
                None
            },
            None => None,
        },
    }
}

/// Builds the enum value of a nested item from what the quoted-text pattern
/// found in its value.
pub fn make_enum_value(
    key: &str,
    value: &Option<String>,
    caps: &Option<Vec<Option<Vec<char>>>>,
    keep: bool,
) -> (r: EnumValue)
    ensures
        r.deep_view() == listed_enum_value(key@, value.deep_view(), found(*caps), keep),
{
    let description = match caps {
        Some(g) => if value.is_some() {
            Some(group_or_empty(g, 1))
        } else {
            None
        },
        None => None,
    };
    let kept = match value {
        Some(v) => if caps.is_none() && keep {
            Some(JsonValue::String(v.clone()))
        } else {
            None
        },
        None => None,
    };
    EnumValue { name: String::from_str(key), description, value_type: None, value: kept }
}

fn find_quote(value: &Option<String>) -> (r: Option<Vec<Option<Vec<char>>>>)
    ensures
        found(r) == quote_caps(value.deep_view()),
{
    match value {
        Some(v) => captures(RE_QUOTE_STR, &to_chars(v.as_str())),
        None => None,
    }
}

/// The enum with the value of a nested item `key: value` added.
pub open spec fn nested_in_enum(
    e: EnumNodeView,
    key: Option<Seq<char>>,
    value: Option<Seq<char>>,
) -> EnumNodeView {
    match key {
        Some(k) => EnumNodeView {
            values: e.values.push(listed_enum_value(k, value, quote_caps(value), true)),
            ..e
        },
        None => e,
    }
}

/// Adds the value of a nested item to an enum.
pub fn nested_item_in_enum(e: &mut EnumNode, key: &Option<String>, value: &Option<String>)
    ensures
        final(e).deep_view() == nested_in_enum(
            old(e).deep_view(),
            key.deep_view(),
            value.deep_view(),
        ),
{
    match key {
        Some(k) => {
            let caps = find_quote(value);
            let ev = make_enum_value(k.as_str(), value, &caps, true);
            let ghost before = e.values.deep_view();
            e.values.push(ev);
            proof {
                assert(e.values.deep_view() =~= before.push(ev.deep_view()));
            }
        },
        None => {},
    }
}

/// The data of the sub-field that a nested item `key: value` writes.
pub open spec fn sub_field_data(key: Seq<char>, value: Seq<char>) -> TokenDataView {
    type_and_attrs(
        value,
        TokenDataView { name: Some(key), ..TokenData::empty_view() },
        regex_captures(RE_TYPE_PART@, value),
    )
}

/// The field with what a nested item below it says. `values` opens the list
/// of enum values; under a field with enum values, or of the type `enum`,
/// the item is an enum value; under an object, an item with a type is a
/// sub-field; any other item sets a property of the field.
pub open spec fn nested_in_field(
    f: FieldNodeView,
    key: Option<Seq<char>>,
    value: Option<Seq<char>>,
    line: usize,
    file: Seq<char>,
    kind: FieldKind,
) -> FieldNodeView {
    if key == Some("values"@) && value is None {
        FieldNodeView {
            enum_values: Some(
                match f.enum_values {
                    Some(v) => v,
                    None => Seq::empty(),
                },
            ),
            ..f
        }
    } else if f.enum_values is Some && key is Some {
        FieldNodeView {
            enum_values: Some(
                f.enum_values->0.push(
                    listed_enum_value(key->0, value, quote_caps(value), true),
                ),
            ),
            ..f
        }
    } else if f.field_type == Some("enum"@) && key is Some && (value is None
        || !value->0.contains(':')) {
        FieldNodeView {
            enum_values: Some(seq![listed_enum_value(key->0, value, quote_caps(value), false)]),
            ..f
        }
    } else if key is Some && value is Some && f.field_type == Some("object"@) && sub_field_data(
        key->0,
        value->0,
    ).field_type is Some {
        FieldNodeView {
            fields: Some(
                match f.fields {
                    Some(k) => k.push(
                        field_node(sub_field_data(key->0, value->0), line, file, kind),
                    ),
                    None => seq![field_node(sub_field_data(key->0, value->0), line, file, kind)],
                },
            ),
            ..f
        }
    } else if key is Some {
        extended(f, key->0, text_or_empty(value))
    } else {
        f
    }
}

fn is_text(o: &Option<String>, lit: &str) -> (r: bool)
    ensures
        r == (o.deep_view() == Some(lit@)),
{
    match o {
        Some(s) => str_eq(s.as_str(), lit),
        None => false,
    }
}

fn read_sub_field_data(key: &str, value: &str) -> (r: TokenData)
    ensures
        r.deep_view() == sub_field_data(key@, value@),
{
    let mut data = TokenData::default();
    data.name = Some(String::from_str(key));
    let v = to_chars(value);
    let caps = captures(RE_TYPE_PART, &v);
    apply_type_and_attrs(&v, &mut data, &caps);
    data
}

fn push_enum_value(f: &mut FieldNode, ev: EnumValue)
    requires
        old(f).enum_values is Some,
    ensures
        field_view(final(f)) == (FieldNodeView {
            enum_values: Some(field_view(old(f)).enum_values->0.push(ev.deep_view())),
            ..field_view(old(f))
        }),
{
    let mut values = match f.enum_values.take() {
        Some(v) => v,
        None => Vec::new(),
    };
    let ghost before = values.deep_view();
    values.push(ev);
    proof {
        assert(values.deep_view() =~= before.push(ev.deep_view()));
    }
    f.enum_values = Some(values);
}

fn push_sub_field(f: &mut FieldNode, sub: FieldNode)
    ensures
        field_view(final(f)) == (FieldNodeView {
            fields: Some(
                match field_view(old(f)).fields {
                    Some(k) => k.push(field_view(&sub)),
                    None => seq![field_view(&sub)],
                },
            ),
            ..field_view(old(f))
        }),
{
    proof {
        if f.fields is Some {
            lemma_field_view_fields(f);
        }
    }
    let mut subs: Vec<FieldNode> = Vec::new();
    match f.fields.take() {
        Some(k) => {
            subs = k;
        },
        None => {
            proof {
                assert(subs.deep_view() =~= Seq::empty());
            }
        },
    }
    let ghost before = subs.deep_view();
    subs.push(sub);
    proof {
        assert(subs.deep_view() =~= before.push(field_view(&sub)));
        assert(Seq::<FieldNodeView>::empty().push(field_view(&sub)) =~= seq![field_view(&sub)]);
    }
    f.fields = Some(subs);
    proof {
        lemma_field_view_fields(f);
    }
}

/// Applies a nested item to the field it stands under.
pub fn nested_item_in_field(
    f: &mut FieldNode,
    key: &Option<String>,
    value: &Option<String>,
    line: usize,
    file: &str,
    kind: FieldKind,
)
    ensures
        field_view(final(f)) == nested_in_field(
            field_view(old(f)),
            key.deep_view(),
            value.deep_view(),
            line,
            file@,
            kind,
        ),
{
    if is_text(key, "values") && value.is_none() {
        if f.enum_values.is_none() {
            let e: Vec<EnumValue> = Vec::new();
            proof {
                assert(e.deep_view() =~= Seq::empty());
            }
            f.enum_values = Some(e);
        }
        return ;
    }
    match key {
        Some(k) => {
            if f.enum_values.is_some() {
                let caps = find_quote(value);
                push_enum_value(f, make_enum_value(k.as_str(), value, &caps, true));
                return ;
            }
            let plain = match value {
                Some(v) => !contains_char(&to_chars(v.as_str()), ':'),
                None => true,
            };
            if is_text(&f.field_type, "enum") && plain {
                let caps = find_quote(value);
                let ev = make_enum_value(k.as_str(), value, &caps, false);
                let mut e: Vec<EnumValue> = Vec::new();
                e.push(ev);
                proof {
                    assert(e.deep_view() =~= seq![ev.deep_view()]);
                }
                f.enum_values = Some(e);
                return ;
            }
            match value {
                Some(v) => {
                    if is_text(&f.field_type, "object") {
                        let data = read_sub_field_data(k.as_str(), v.as_str());
                        if data.field_type.is_some() {
                            push_sub_field(f, build_field_node(&data, line, file, kind));
                            return ;
                        }
                    }
                    apply_extended_attribute(f, k.as_str(), v.as_str());
                },
                None => {
                    proof {
                        reveal_strlit("");
                        assert(""@ =~= Seq::<char>::empty());
                    }
                    apply_extended_attribute(f, k.as_str(), "");
                },
            }
        },
        None => {},
    }
}

/// The list with `key` set to `value` in its last entry, where that is an object.
pub open spec fn with_last_member(list: Seq<JsonView>, key: Seq<char>, value: JsonView) -> Seq<
    JsonView,
> {
    if list.len() > 0 {
        match list.last() {
            JsonView::Object(members) => list.update(
                list.len() - 1,
                JsonView::Object(with_member(members, key, value)),
            ),
            _ => list,
        }
    } else {
        list
    }
}

fn set_last_member(list: &mut Vec<JsonValue>, key: &str, value: JsonValue)
    ensures
        final(list).deep_view() == with_last_member(
            old(list).deep_view(),
            key@,
            value.deep_view(),
        ),
{
    let ghost before = list.deep_view();
    match list.pop() {
        Some(last) => {
            proof {
                assert(before.last() == last.deep_view());
                assert(list.deep_view() =~= before.drop_last());
            }
            match last {
                JsonValue::Object(mut members) => {
                    proof {
                        lemma_json_object(members);
                    }
                    set_member(&mut members, key, value);
                    let ghost short = list.deep_view();
                    let entry = object(members);
                    list.push(entry);
                    proof {
                        assert(list.deep_view() =~= short.push(entry.deep_view()));
                        assert(list.deep_view() =~= with_last_member(
                            before,
                            key@,
                            value.deep_view(),
                        ));
                    }
                },
                other => {
                    let ghost short = list.deep_view();
                    list.push(other);
                    proof {
                        assert(list.deep_view() =~= short.push(other.deep_view()));
                        assert(list.deep_view() =~= before);
                    }
                },
            }
        },
        None => {
            proof {
                assert(list.deep_view() =~= before);
            }
        },
    }
}

/// The model with what a nested item says of the entry or the field above
/// it. Under `Indexes` and `Relations` the item sets a key of the last
/// entry; under a field it belongs to that field; in the source of a view it
/// is a source directive.
pub open spec fn nested_in_model(
    m: ModelNodeView,
    key: Option<Seq<char>>,
    value: Option<Seq<char>>,
    line: usize,
    file: Seq<char>,
    section: Option<Seq<char>>,
    kind: FieldKind,
    last: Option<usize>,
) -> ModelNodeView {
    if section == Some("Indexes"@) && last is Some {
        match key {
            Some(k) => ModelNodeView {
                sections: SectionsView {
                    indexes: with_last_member(
                        m.sections.indexes,
                        k,
                        nested_value(text_or_empty(value)),
                    ),
                    ..m.sections
                },
                ..m
            },
            None => m,
        }
    } else if section == Some("Relations"@) && last is Some {
        match key {
            Some(k) => ModelNodeView {
                sections: SectionsView {
                    relations: with_last_member(
                        m.sections.relations,
                        k,
                        nested_value(text_or_empty(value)),
                    ),
                    ..m.sections
                },
                ..m
            },
            None => m,
        }
    } else if last is Some && (last->0 as int) < m.fields.len() {
        ModelNodeView {
            fields: m.fields.update(
                last->0 as int,
                nested_in_field(m.fields[last->0 as int], key, value, line, file, kind),
            ),
            ..m
        }
    } else if section == Some("Source"@) && m.model_type == ModelType::View {
        match key {
            Some(k) => match m.source_def {
                Some(def) => ModelNodeView {
                    source_def: Some(
                        with_source_directive(
                            def,
                            TokenDataView {
                                name: Some(k),
                                field_type: value,
                                ..TokenData::empty_view()
                            },
                        ),
                    ),
                    ..m
                },
                None => m,
            },
            None => m,
        }
    } else {
        m
    }
}

fn value_text(value: &Option<String>) -> (r: Vec<char>)
    ensures
        r@ == text_or_empty(value.deep_view()),
{
    match value {
        Some(v) => to_chars(v.as_str()),
        None => Vec::new(),
    }
}

fn nested_under_field(
    model: &mut ModelNode,
    idx: usize,
    key: &Option<String>,
    value: &Option<String>,
    line: usize,
    file: &str,
    kind: FieldKind,
)
    requires
        idx < old(model).fields@.len(),
    ensures
        final(model).deep_view() == (ModelNodeView {
            fields: old(model).deep_view().fields.update(
                idx as int,
                nested_in_field(
                    old(model).deep_view().fields[idx as int],
                    key.deep_view(),
                    value.deep_view(),
                    line,
                    file@,
                    kind,
                ),
            ),
            ..old(model).deep_view()
        }),
{
    let ghost before = model.fields.deep_view();
    let mut f = model.fields.remove(idx);
    assert(field_view(&f) == before[idx as int]);
    nested_item_in_field(&mut f, key, value, line, file, kind);
    model.fields.insert(idx, f);
    proof {
        assert(model.fields.deep_view() =~= before.update(idx as int, field_view(&f)));
    }
}

fn nested_in_source(model: &mut ModelNode, key: &Option<String>, value: &Option<String>)
    ensures
        final(model).deep_view() == match key.deep_view() {
            Some(k) => match old(model).deep_view().source_def {
                Some(def) => ModelNodeView {
                    source_def: Some(
                        with_source_directive(
                            def,
                            TokenDataView {
                                name: Some(k),
                                field_type: value.deep_view(),
                                ..TokenData::empty_view()
                            },
                        ),
                    ),
                    ..old(model).deep_view()
                },
                None => old(model).deep_view(),
            },
            None => old(model).deep_view(),
        },
{
    match key {
        Some(k) => {
            match model.source_def.take() {
                Some(def) => {
                    let mut def = def;
                    let mut data = TokenData::default();
                    data.name = Some(k.clone());
                    data.field_type = clone_opt_string(value);
                    set_source_directive(&mut def, &data);
                    model.source_def = Some(def);
                },
                None => {},
            }
        },
        None => {},
    }
}

fn nested_in_list(list: &mut Vec<JsonValue>, key: &Option<String>, value: &Option<String>)
    ensures
        final(list).deep_view() == match key.deep_view() {
            Some(k) => with_last_member(
                old(list).deep_view(),
                k,
                nested_value(text_or_empty(value.deep_view())),
            ),
            None => old(list).deep_view(),
        },
{
    match key {
        Some(k) => {
            let v = parse_nested_value(&value_text(value));
            set_last_member(list, k.as_str(), v);
        },
        None => {},
    }
}

/// Applies a nested item to the model it stands in.
pub fn nested_item_in_model(
    model: &mut ModelNode,
    key: &Option<String>,
    value: &Option<String>,
    line: usize,
    file: &str,
    section: &Option<String>,
    kind: FieldKind,
    last: Option<usize>,
)
    ensures
        final(model).deep_view() == nested_in_model(
            old(model).deep_view(),
            key.deep_view(),
            value.deep_view(),
            line,
            file@,
            section.deep_view(),
            kind,
            last,
        ),
{
    if is_text(section, "Indexes") && last.is_some() {
        nested_in_list(&mut model.sections.indexes, key, value);
        return ;
    }
    if is_text(section, "Relations") && last.is_some() {
        nested_in_list(&mut model.sections.relations, key, value);
        return ;
    }
    match last {
        Some(idx) => {
            if idx < model.fields.len() {
                nested_under_field(model, idx, key, value, line, file, kind);
                return ;
            }
        },
        None => {},
    }
    if is_text(section, "Source") && is_view(model) {
        nested_in_source(model, key, value);
    }
}

} // verus!
