//! Validation of a resolved tree: the rules for each field, the sources of
//! views, repeated field names, the foreign keys of relations, and in strict
//! mode the style rules.

use vstd::prelude::*;
use crate::field_line::{group_or_empty, text_or_empty};
use crate::grammar::RE_VIA;
use crate::pattern::{captures, found, group_text, regex_captures};
use crate::report::{
    error_at, error_view, model_type_word, report, say, type_word, warning_at, warning_view,
};
use crate::resolver::{field_index, find_field, model_index};
use crate::rules::{
    check_fields, check_models, context_of, fault, fault_text, fields_diagnostics, has_model,
    has_reference, is_reference, models_diagnostics, Context, FieldRule,
};
use crate::text::{contains_char, str_eq, to_chars};
use crate::types::{
    clone_vec_diagnostic, field_view, lemma_field_view_fields, AttributeRegistryEntry, Diagnostic,
    DiagnosticView, EnumNode, EnumNodeView, FieldNode, FieldNodeView, JsonValue, JsonView, M3lAst,
    M3lAstView, ModelNode, ModelNodeView, ValidateOptions, ValidateResult, ValidateResultView,
};
use crate::values::{find_member, member_index};

verus! {

/// The error for a view whose source is no model of the tree.
pub open spec fn source_error(v: ModelNodeView) -> DiagnosticView {
    error_view(
        "M3L-E004"@,
        v.source,
        v.line,
        "View \""@ + v.name + "\" references model \""@ + v.source_def->0.from->0
            + "\" which is not defined"@,
    )
}

/// Whether the source of a view names a model or view that is not there.
pub open spec fn source_missing(all: Seq<ModelNodeView>, v: ModelNodeView) -> bool {
    v.source_def is Some && v.source_def->0.from is Some && model_index(
        all,
        v.source_def->0.from->0,
        all.len() as int,
    ) is None
}

/// The errors for the views from the `i`-th on whose source is not defined.
pub open spec fn source_errors(all: Seq<ModelNodeView>, views: Seq<ModelNodeView>, i: int) -> Seq<
    DiagnosticView,
>
    decreases views.len() - i,
{
    if i < 0 || i >= views.len() {
        Seq::empty()
    } else if source_missing(all, views[i]) {
        seq![source_error(views[i])] + source_errors(all, views, i + 1)
    } else {
        source_errors(all, views, i + 1)
    }
}

fn check_view_sources(all: &Vec<ModelNode>, views: &Vec<ModelNode>, out: &mut Vec<Diagnostic>)
    ensures
        final(out).deep_view() == old(out).deep_view() + source_errors(
            all.deep_view(),
            views.deep_view(),
            0,
        ),
{
    let ghost av = all.deep_view();
    let ghost vv = views.deep_view();
    let mut i: usize = 0;
    while i < views.len()
        invariant
            i <= views@.len(),
            av == all.deep_view(),
            vv == views.deep_view(),
            out.deep_view() + source_errors(av, vv, i as int) == old(out).deep_view()
                + source_errors(av, vv, 0),
        decreases views.len() - i,
    {
        let v = &views[i];
        let ghost start = out.deep_view();
        proof {
            assert(vv[i as int] == v.deep_view());
        }
        match &v.source_def {
            Some(def) => match &def.from {
                Some(from) => {
                    if !has_model(all, from.as_str()) {
                        let mut t: Vec<char> = Vec::new();
                        say(&mut t, "View \"");
                        say(&mut t, v.name.as_str());
                        say(&mut t, "\" references model \"");
                        say(&mut t, from.as_str());
                        say(&mut t, "\" which is not defined");
                        proof {
                            assert(t@ =~= "View \""@ + v.name@ + "\" references model \""@
                                + from@ + "\" which is not defined"@);
                        }
                        report(out, error_at("M3L-E004", v.source.as_str(), v.line, &t));
                    }
                },
                None => {},
            },
            None => {},
        }
        proof {
            let rest = source_errors(av, vv, i + 1);
            if source_missing(av, vv[i as int]) {
                assert(out.deep_view() + rest =~= start + (seq![source_error(vv[i as int])]
                    + rest));
            }
        }
        i += 1;
    }
    proof {
        assert(out.deep_view() + Seq::<DiagnosticView>::empty() =~= out.deep_view());
    }
}

/// The error for a field of `m` whose name an earlier field has already.
pub open spec fn repeated_field_error(m: ModelNodeView, k: int) -> DiagnosticView {
    error_view(
        "M3L-E006"@,
        m.fields[k].loc.file,
        m.fields[k].loc.line,
        "Duplicate field name \""@ + m.fields[k].name + "\" in "@ + type_word(m.model_type)
            + " \""@ + m.name + "\""@,
    )
}

/// The errors for the fields of `m` from the `k`-th on whose name an earlier
/// field has already.
pub open spec fn repeated_fields(m: ModelNodeView, k: int) -> Seq<DiagnosticView>
    decreases m.fields.len() - k,
{
    if k < 0 || k >= m.fields.len() {
        Seq::empty()
    } else if field_index(m.fields, m.fields[k].name, 0) < k {
        seq![repeated_field_error(m, k)] + repeated_fields(m, k + 1)
    } else {
        repeated_fields(m, k + 1)
    }
}

/// The errors for repeated field names in the models from the `i`-th on.
pub open spec fn repeated_fields_in(list: Seq<ModelNodeView>, i: int) -> Seq<DiagnosticView>
    decreases list.len() - i,
{
    if i < 0 || i >= list.len() {
        Seq::empty()
    } else {
        repeated_fields(list[i], 0) + repeated_fields_in(list, i + 1)
    }
}

fn check_repeated_fields(model: &ModelNode, out: &mut Vec<Diagnostic>)
    ensures
        final(out).deep_view() == old(out).deep_view() + repeated_fields(model.deep_view(), 0),
{
    let ghost mv = model.deep_view();
    let mut k: usize = 0;
    while k < model.fields.len()
        invariant
            k <= model.fields@.len(),
            mv == model.deep_view(),
            out.deep_view() + repeated_fields(mv, k as int) == old(out).deep_view()
                + repeated_fields(mv, 0),
        decreases model.fields.len() - k,
    {
        let f = &model.fields[k];
        let ghost start = out.deep_view();
        proof {
            assert(mv.fields[k as int] == field_view(f));
        }
        if find_field(&model.fields, f.name.as_str()) < k {
            let mut t: Vec<char> = Vec::new();
            say(&mut t, "Duplicate field name \"");
            say(&mut t, f.name.as_str());
            say(&mut t, "\" in ");
            say(&mut t, model_type_word(model.model_type));
            say(&mut t, " \"");
            say(&mut t, model.name.as_str());
            say(&mut t, "\"");
            proof {
                assert(t@ =~= "Duplicate field name \""@ + f.name@ + "\" in "@ + type_word(
                    model.model_type,
                ) + " \""@ + model.name@ + "\""@);
            }
            report(out, error_at("M3L-E006", f.loc.file.as_str(), f.loc.line, &t));
            proof {
                assert(out.deep_view() + repeated_fields(mv, k + 1) =~= start + (seq![
                    repeated_field_error(mv, k as int),
                ] + repeated_fields(mv, k + 1)));
            }
        }
        k += 1;
    }
    proof {
        assert(out.deep_view() + Seq::<DiagnosticView>::empty() =~= out.deep_view());
    }
}

fn check_all_repeated_fields(list: &Vec<ModelNode>, out: &mut Vec<Diagnostic>)
    ensures
        final(out).deep_view() == old(out).deep_view() + repeated_fields_in(list.deep_view(), 0),
{
    let ghost lv = list.deep_view();
    let mut i: usize = 0;
    while i < list.len()
        invariant
            i <= list@.len(),
            lv == list.deep_view(),
            out.deep_view() + repeated_fields_in(lv, i as int) == old(out).deep_view()
                + repeated_fields_in(lv, 0),
        decreases list.len() - i,
    {
        let ghost start = out.deep_view();
        proof {
            assert(lv[i as int] == list@[i as int].deep_view());
        }
        check_repeated_fields(&list[i], out);
        proof {
            assert(out.deep_view() + repeated_fields_in(lv, i + 1) =~= start + (repeated_fields(
                lv[i as int],
                0,
            ) + repeated_fields_in(lv, i + 1)));
        }
        i += 1;
    }
    proof {
        assert(out.deep_view() + Seq::<DiagnosticView>::empty() =~= out.deep_view());
    }
}

/// What an object holds under `key`; nothing where the value is no object.
pub open spec fn member_of(j: JsonView, key: Seq<char>) -> Option<JsonView> {
    match j {
        JsonView::Object(members) => {
            let i = member_index(members, key, 0);
            if 0 <= i < members.len() {
                Some(members[i].1)
            } else {
                None
            }
        },
        _ => None,
    }
}

/// The text of a value that is a string.
pub open spec fn text_of(j: Option<JsonView>) -> Option<Seq<char>> {
    match j {
        Some(JsonView::String(s)) => Some(s),
        _ => None,
    }
}

fn get_member<'a>(j: &'a JsonValue, key: &str) -> (r: Option<&'a JsonValue>)
    ensures
        match r {
            Some(v) => member_of(j.deep_view(), key@) == Some(v.deep_view()),
            None => member_of(j.deep_view(), key@) is None,
        },
{
    match j {
        JsonValue::Object(members) => {
            proof {
                crate::types::lemma_json_object(*members);
            }
            let i = find_member(members, key);
            if i < members.len() {
                proof {
                    assert(members.deep_view()[i as int].1 == members@[i as int].value.deep_view());
                }
                Some(&members[i].value)
            } else {
                None
            }
        },
        _ => None,
    }
}

fn get_text(j: &JsonValue, key: &str) -> (r: Option<String>)
    ensures
        r.deep_view() == text_of(member_of(j.deep_view(), key@)),
{
    match get_member(j, key) {
        Some(v) => match v {
            JsonValue::String(s) => Some(s.clone()),
            _ => None,
        },
        None => None,
    }
}

/// The file of a relation entry: that of its `loc`, or the file of the model.
pub open spec fn relation_file(m: ModelNodeView, rel: JsonView) -> Seq<char> {
    match member_of(rel, "loc"@) {
        Some(loc) => match text_of(member_of(loc, "file"@)) {
            Some(f) => f,
            None => m.source,
        },
        None => m.source,
    }
}

/// The line of a relation entry: that of its `loc`, or the line of the model.
pub open spec fn relation_line(m: ModelNodeView, rel: JsonView) -> usize {
    match member_of(rel, "loc"@) {
        Some(loc) => match member_of(loc, "line"@) {
            Some(JsonView::Int(i)) => if 0 <= i <= usize::MAX {
                i as usize
            } else {
                m.line
            },
            _ => m.line,
        },
        None => m.line,
    }
}

/// The foreign key that a relation entry names: its `from`, or the field
/// after `via` in its text, which `via_caps` holds.
pub open spec fn relation_key(rel: JsonView, via_caps: Option<Seq<Option<Seq<char>>>>) -> Option<
    Seq<char>,
> {
    match text_of(member_of(rel, "from"@)) {
        Some(f) => Some(f),
        None => match via_caps {
            Some(g) => Some(text_or_empty(group_text(g, 1))),
            None => None,
        },
    }
}

/// The error for a relation whose foreign key is missing or is no
/// reference.
pub open spec fn relation_error(
    m: ModelNodeView,
    rel: JsonView,
    key: Seq<char>,
    missing: bool,
) -> DiagnosticView {
    error_view(
        "M3L-E010"@,
        relation_file(m, rel),
        relation_line(m, rel),
        "Relations entry references FK \""@ + key + "\" which "@ + fault(missing) + " in "@
            + type_word(m.model_type) + " \""@ + m.name + "\""@,
    )
}

/// An outgoing relation, one whose text holds `>`, must run over a foreign
/// key: the field that it names must exist in the model and carry
/// `@reference` or `@fk`. Directives are not looked at. `via_caps` is what
/// the pattern for `via` finds in the text of the entry.
pub open spec fn relation_diagnostics(
    m: ModelNodeView,
    rel: JsonView,
    via_caps: Option<Seq<Option<Seq<char>>>>,
) -> Seq<DiagnosticView> {
    if text_of(member_of(rel, "type"@)) == Some("directive"@) {
        Seq::empty()
    } else {
        match text_of(member_of(rel, "raw"@)) {
            Some(raw) => if raw.contains('>') {
                match relation_key(rel, via_caps) {
                    Some(key) => {
                        let k = field_index(m.fields, key, 0);
                        if 0 <= k < m.fields.len() {
                            if has_reference(m.fields[k]) {
                                Seq::empty()
                            } else {
                                seq![relation_error(m, rel, key, false)]
                            }
                        } else {
                            seq![relation_error(m, rel, key, true)]
                        }
                    },
                    None => Seq::empty(),
                }
            } else {
                Seq::empty()
            },
            None => Seq::empty(),
        }
    }
}

/// What the pattern for `via` finds in the text of a relation entry.
pub open spec fn via_caps(rel: JsonView) -> Option<Seq<Option<Seq<char>>>> {
    match text_of(member_of(rel, "raw"@)) {
        Some(raw) => regex_captures(RE_VIA@, raw),
        None => None,
    }
}

/// The errors for the relations of `m` from the `k`-th on.
pub open spec fn relations_diagnostics(m: ModelNodeView, k: int) -> Seq<DiagnosticView>
    decreases m.sections.relations.len() - k,
{
    if k < 0 || k >= m.sections.relations.len() {
        Seq::empty()
    } else {
        relation_diagnostics(m, m.sections.relations[k], via_caps(m.sections.relations[k]))
            + relations_diagnostics(m, k + 1)
    }
}

/// The errors for the relations of the models from the `i`-th on.
pub open spec fn relations_diagnostics_in(list: Seq<ModelNodeView>, i: int) -> Seq<DiagnosticView>
    decreases list.len() - i,
{
    if i < 0 || i >= list.len() {
        Seq::empty()
    } else {
        relations_diagnostics(list[i], 0) + relations_diagnostics_in(list, i + 1)
    }
}

fn relation_place(model: &ModelNode, rel: &JsonValue) -> (r: (String, usize))
    ensures
        r.0@ == relation_file(model.deep_view(), rel.deep_view()),
        r.1 == relation_line(model.deep_view(), rel.deep_view()),
{
    match get_member(rel, "loc") {
        Some(loc) => {
            let file = match get_text(loc, "file") {
                Some(f) => f,
                None => model.source.clone(),
            };
            let line = match get_member(loc, "line") {
                Some(v) => match v {
                    JsonValue::UInt(u) => {
                        if *u <= usize::MAX as u64 {
                            *u as usize
                        } else {
                            model.line
                        }
                    },
                    JsonValue::Int(i) => {
                        if *i >= 0 && (*i as u64) <= usize::MAX as u64 {
                            *i as usize
                        } else {
                            model.line
                        }
                    },
                    _ => model.line,
                },
                None => model.line,
            };
            (file, line)
        },
        None => (model.source.clone(), model.line),
    }
}

/// Checks the foreign key of one relation entry, given what the pattern for
/// `via` found in its text.
pub fn validate_relation(
    model: &ModelNode,
    rel: &JsonValue,
    via: &Option<Vec<Option<Vec<char>>>>,
    out: &mut Vec<Diagnostic>,
)
    ensures
        final(out).deep_view() == old(out).deep_view() + relation_diagnostics(
            model.deep_view(),
            rel.deep_view(),
            found(*via),
        ),
{
    let ghost before = out.deep_view();
    proof {
        assert(before + Seq::<DiagnosticView>::empty() =~= before);
    }
    match get_text(rel, "type") {
        Some(t) => {
            if str_eq(t.as_str(), "directive") {
                return ;
            }
        },
        None => {},
    }
    let raw = match get_text(rel, "raw") {
        Some(r) => r,
        None => {
            return ;
        },
    };
    if !contains_char(&to_chars(raw.as_str()), '>') {
        return ;
    }
    let key = match get_text(rel, "from") {
        Some(f) => f,
        None => match via {
            Some(g) => group_or_empty(g, 1),
            None => {
                return ;
            },
        },
    };
    let k = find_field(&model.fields, key.as_str());
    let missing = if k < model.fields.len() {
        proof {
            assert(model.deep_view().fields[k as int] == field_view(&model.fields@[k as int]));
        }
        if is_reference(&model.fields[k]) {
            return ;
        }
        false
    } else {
        true
    };
    let (file, line) = relation_place(model, rel);
    let mut t: Vec<char> = Vec::new();
    say(&mut t, "Relations entry references FK \"");
    say(&mut t, key.as_str());
    say(&mut t, "\" which ");
    say(&mut t, fault_text(missing));
    say(&mut t, " in ");
    say(&mut t, model_type_word(model.model_type));
    say(&mut t, " \"");
    say(&mut t, model.name.as_str());
    say(&mut t, "\"");
    proof {
        assert(t@ =~= "Relations entry references FK \""@ + key@ + "\" which "@ + fault(missing)
            + " in "@ + type_word(model.model_type) + " \""@ + model.name@ + "\""@);
    }
    report(out, error_at("M3L-E010", file.as_str(), line, &t));
    proof {
        assert(out.deep_view() =~= before + seq![
            relation_error(model.deep_view(), rel.deep_view(), key@, missing),
        ]);
    }
}

fn find_via(rel: &JsonValue) -> (r: Option<Vec<Option<Vec<char>>>>)
    ensures
        found(r) == via_caps(rel.deep_view()),
{
    match get_text(rel, "raw") {
        Some(raw) => captures(RE_VIA, &to_chars(raw.as_str())),
        None => None,
    }
}

fn validate_relations_references(model: &ModelNode, out: &mut Vec<Diagnostic>)
    ensures
        final(out).deep_view() == old(out).deep_view() + relations_diagnostics(
            model.deep_view(),
            0,
        ),
{
    let ghost mv = model.deep_view();
    let mut k: usize = 0;
    while k < model.sections.relations.len()
        invariant
            k <= model.sections.relations@.len(),
            mv == model.deep_view(),
            out.deep_view() + relations_diagnostics(mv, k as int) == old(out).deep_view()
                + relations_diagnostics(mv, 0),
        decreases model.sections.relations.len() - k,
    {
        let rel = &model.sections.relations[k];
        let ghost start = out.deep_view();
        proof {
            assert(mv.sections.relations[k as int] == rel.deep_view());
        }
        let via = find_via(rel);
        validate_relation(model, rel, &via, out);
        proof {
            assert(out.deep_view() + relations_diagnostics(mv, k + 1) =~= start + (
                relation_diagnostics(mv, mv.sections.relations[k as int], via_caps(
                    mv.sections.relations[k as int],
                )) + relations_diagnostics(mv, k + 1)));
        }
        k += 1;
    }
    proof {
        assert(out.deep_view() + Seq::<DiagnosticView>::empty() =~= out.deep_view());
    }
}

fn validate_all_relations(list: &Vec<ModelNode>, out: &mut Vec<Diagnostic>)
    ensures
        final(out).deep_view() == old(out).deep_view() + relations_diagnostics_in(
            list.deep_view(),
            0,
        ),
{
    let ghost lv = list.deep_view();
    let mut i: usize = 0;
    while i < list.len()
        invariant
            i <= list@.len(),
            lv == list.deep_view(),
            out.deep_view() + relations_diagnostics_in(lv, i as int) == old(out).deep_view()
                + relations_diagnostics_in(lv, 0),
        decreases list.len() - i,
    {
        let ghost start = out.deep_view();
        proof {
            assert(lv[i as int] == list@[i as int].deep_view());
        }
        validate_relations_references(&list[i], out);
        proof {
            assert(out.deep_view() + relations_diagnostics_in(lv, i + 1) =~= start + (
                relations_diagnostics(lv[i as int], 0) + relations_diagnostics_in(lv, i + 1)));
        }
        i += 1;
    }
    proof {
        assert(out.deep_view() + Seq::<DiagnosticView>::empty() =~= out.deep_view());
    }
}

/// The level below `level`; levels beyond the third count as the third.
pub open spec fn next_level(level: int) -> int {
    if level >= 3 {
        3
    } else {
        level + 1
    }
}

/// The warning for a field that holds fields at the third level or below.
pub open spec fn nesting_warning(m: ModelNodeView, f: FieldNodeView) -> DiagnosticView {
    warning_view(
        "M3L-W002"@,
        f.loc.file,
        f.loc.line,
        "Object nesting depth exceeds 3 levels at field \""@ + f.name + "\" in \""@ + m.name
            + "\""@,
    )
}

/// The warnings for the fields from the `k`-th on that hold fields of their
/// own at the third level of nesting or deeper; `fields` are at level `level`.
pub open spec fn nesting_diagnostics(
    m: ModelNodeView,
    fields: Seq<FieldNodeView>,
    k: int,
    level: int,
) -> Seq<DiagnosticView>
    decreases fields, fields.len() - k,
{
    if k < 0 || k >= fields.len() {
        Seq::empty()
    } else {
        (match fields[k].fields {
            Some(sub) => if sub.len() > 0 {
                (if level >= 3 {
                    seq![nesting_warning(m, fields[k])]
                } else {
                    Seq::empty()
                }) + nesting_diagnostics(m, sub, 0, next_level(level))
            } else {
                Seq::empty()
            },
            None => Seq::empty(),
        }) + nesting_diagnostics(m, fields, k + 1, level)
    }
}

fn check_nesting_depth(
    fields: &Vec<FieldNode>,
    level: usize,
    model: &ModelNode,
    out: &mut Vec<Diagnostic>,
)
    requires
        level <= 3,
    ensures
        final(out).deep_view() == old(out).deep_view() + nesting_diagnostics(
            model.deep_view(),
            fields.deep_view(),
            0,
            level as int,
        ),
    decreases fields,
{
    let ghost mv = model.deep_view();
    let ghost fv = fields.deep_view();
    let mut k: usize = 0;
    while k < fields.len()
        invariant
            k <= fields@.len(),
            level <= 3,
            mv == model.deep_view(),
            fv == fields.deep_view(),
            out.deep_view() + nesting_diagnostics(mv, fv, k as int, level as int) == old(
                out,
            ).deep_view() + nesting_diagnostics(mv, fv, 0, level as int),
        decreases fields.len() - k,
    {
        let f = &fields[k];
        let ghost start = out.deep_view();
        proof {
            assert(fv[k as int] == field_view(f));
            assert(start + Seq::<DiagnosticView>::empty() =~= start);
        }
        match &f.fields {
            Some(sub) => {
                proof {
                    lemma_field_view_fields(f);
                }
                if sub.len() > 0 {
                    if level >= 3 {
                        let mut t: Vec<char> = Vec::new();
                        say(&mut t, "Object nesting depth exceeds 3 levels at field \"");
                        say(&mut t, f.name.as_str());
                        say(&mut t, "\" in \"");
                        say(&mut t, model.name.as_str());
                        say(&mut t, "\"");
                        proof {
                            assert(t@ =~= "Object nesting depth exceeds 3 levels at field \""@
                                + f.name@ + "\" in \""@ + model.name@ + "\""@);
                        }
                        report(out, warning_at("M3L-W002", f.loc.file.as_str(), f.loc.line, &t));
                    }
                    let below = if level >= 3 {
                        3
                    } else {
                        level + 1
                    };
                    let ghost mid = out.deep_view();
                    check_nesting_depth(sub, below, model, out);
                    proof {
                        let own = (if level >= 3 {
                            seq![nesting_warning(mv, fv[k as int])]
                        } else {
                            Seq::empty()
                        }) + nesting_diagnostics(mv, sub.deep_view(), 0, next_level(level as int));
                        assert(out.deep_view() =~= start + own);
                    }
                }
            },
            None => {},
        }
        proof {
            let own = match fv[k as int].fields {
                Some(sub) => if sub.len() > 0 {
                    (if level >= 3 {
                        seq![nesting_warning(mv, fv[k as int])]
                    } else {
                        Seq::empty()
                    }) + nesting_diagnostics(mv, sub, 0, next_level(level as int))
                } else {
                    Seq::empty()
                },
                None => Seq::empty(),
            };
            let rest = nesting_diagnostics(mv, fv, k + 1, level as int);
            assert(out.deep_view() =~= start + own);
            assert(out.deep_view() + rest =~= start + (own + rest));
        }
        k += 1;
    }
    proof {
        assert(out.deep_view() + Seq::<DiagnosticView>::empty() =~= out.deep_view());
    }
}

/// The style warnings of strict mode for the models from the `i`-th on: for
/// each model those of its fields, then those for its nesting.
pub open spec fn strict_warnings(ctx: Context, list: Seq<ModelNodeView>, i: int) -> Seq<
    DiagnosticView,
>
    decreases list.len() - i,
{
    if i < 0 || i >= list.len() {
        Seq::empty()
    } else {
        fields_diagnostics(FieldRule::Strict, ctx, list[i], list[i].fields, 0, false)
            + nesting_diagnostics(list[i], list[i].fields, 0, 1) + strict_warnings(
            ctx,
            list,
            i + 1,
        )
    }
}

fn check_strict(
    all: &Vec<ModelNode>,
    defined: &Vec<String>,
    registry: &Vec<AttributeRegistryEntry>,
    out: &mut Vec<Diagnostic>,
)
    ensures
        final(out).deep_view() == old(out).deep_view() + strict_warnings(
            context_of(all.deep_view(), defined.deep_view(), registry.deep_view()),
            all.deep_view(),
            0,
        ),
{
    let ghost ctx = context_of(all.deep_view(), defined.deep_view(), registry.deep_view());
    let ghost lv = all.deep_view();
    let mut i: usize = 0;
    while i < all.len()
        invariant
            i <= all@.len(),
            ctx == context_of(all.deep_view(), defined.deep_view(), registry.deep_view()),
            lv == all.deep_view(),
            out.deep_view() + strict_warnings(ctx, lv, i as int) == old(out).deep_view()
                + strict_warnings(ctx, lv, 0),
        decreases all.len() - i,
    {
        let ghost start = out.deep_view();
        proof {
            assert(lv[i as int] == all@[i as int].deep_view());
        }
        check_fields(FieldRule::Strict, all, defined, registry, &all[i], &all[i].fields, false, out);
        check_nesting_depth(&all[i].fields, 1, &all[i], out);
        proof {
            let own = fields_diagnostics(
                FieldRule::Strict,
                ctx,
                lv[i as int],
                lv[i as int].fields,
                0,
                false,
            ) + nesting_diagnostics(lv[i as int], lv[i as int].fields, 0, 1);
            assert(out.deep_view() + strict_warnings(ctx, lv, i + 1) =~= start + (own
                + strict_warnings(ctx, lv, i + 1)));
        }
        i += 1;
    }
    proof {
        assert(out.deep_view() + Seq::<DiagnosticView>::empty() =~= out.deep_view());
    }
}

/// The names of the models of a list.
pub open spec fn model_names(list: Seq<ModelNodeView>) -> Seq<Seq<char>> {
    Seq::new(list.len(), |i: int| list[i].name)
}

/// The names of the enums of a list.
pub open spec fn enum_names(list: Seq<EnumNodeView>) -> Seq<Seq<char>> {
    Seq::new(list.len(), |i: int| list[i].name)
}

/// The models and views of a tree, the models first.
pub open spec fn models_and_views(ast: M3lAstView) -> Seq<ModelNodeView> {
    ast.models + ast.views
}

/// What the rules look things up in for the tree `ast`: the names that are
/// defined are those of its models, views, enums and interfaces.
pub open spec fn context(ast: M3lAstView) -> Context {
    Context {
        all: models_and_views(ast),
        defined: model_names(models_and_views(ast)) + enum_names(ast.enums) + model_names(
            ast.interfaces,
        ),
        registry: ast.attribute_registry,
    }
}

/// The errors of a tree: those it holds already, then what validation
/// finds, rule by rule: rollup references, lookup references, the sources
/// of views, repeated field names, undefined types, and the foreign keys of
/// relations.
pub open spec fn validation_errors(ast: M3lAstView) -> Seq<DiagnosticView> {
    let all = models_and_views(ast);
    let ctx = context(ast);
    ast.errors + models_diagnostics(FieldRule::Rollup, ctx, all, 0, false) + models_diagnostics(
        FieldRule::Lookup,
        ctx,
        all,
        0,
        false,
    ) + source_errors(all, ast.views, 0) + repeated_fields_in(all, 0) + models_diagnostics(
        FieldRule::Types,
        ctx,
        all,
        0,
        true,
    ) + relations_diagnostics_in(all, 0)
}

/// The warnings of a tree: those it holds already, then deprecated syntax,
/// then the arguments of registered attributes, and in strict mode the
/// style warnings.
pub open spec fn validation_warnings(ast: M3lAstView, strict: bool) -> Seq<DiagnosticView> {
    let all = models_and_views(ast);
    let ctx = context(ast);
    ast.warnings + models_diagnostics(FieldRule::Deprecated, ctx, all, 0, true)
        + models_diagnostics(FieldRule::Registry, ctx, all, 0, true) + if strict {
        strict_warnings(ctx, all, 0)
    } else {
        Seq::empty()
    }
}

/// What validation makes of a tree.
pub open spec fn validated(ast: M3lAstView, strict: bool) -> ValidateResultView {
    ValidateResultView {
        errors: validation_errors(ast),
        warnings: validation_warnings(ast, strict),
    }
}

fn add_model_names(names: &mut Vec<String>, list: &Vec<ModelNode>)
    ensures
        final(names).deep_view() == old(names).deep_view() + model_names(list.deep_view()),
{
    let ghost before = names.deep_view();
    let ghost all = model_names(list.deep_view());
    let mut i: usize = 0;
    while i < list.len()
        invariant
            i <= list@.len(),
            all == model_names(list.deep_view()),
            names.deep_view() == before + all.take(i as int),
        decreases list.len() - i,
    {
        let ghost now = names.deep_view();
        proof {
            assert(list.deep_view()[i as int].name == list@[i as int].name@);
        }
        names.push(list[i].name.clone());
        proof {
            assert(names.deep_view() =~= now.push(list@[i as int].name@));
            assert(all.take(i + 1) =~= all.take(i as int).push(all[i as int]));
        }
        i += 1;
    }
    proof {
        assert(all.take(list@.len() as int) =~= all);
    }
}

fn add_enum_names(names: &mut Vec<String>, list: &Vec<EnumNode>)
    ensures
        final(names).deep_view() == old(names).deep_view() + enum_names(list.deep_view()),
{
    let ghost before = names.deep_view();
    let ghost all = enum_names(list.deep_view());
    let mut i: usize = 0;
    while i < list.len()
        invariant
            i <= list@.len(),
            all == enum_names(list.deep_view()),
            names.deep_view() == before + all.take(i as int),
        decreases list.len() - i,
    {
        let ghost now = names.deep_view();
        proof {
            assert(list.deep_view()[i as int].name == list@[i as int].name@);
        }
        names.push(list[i].name.clone());
        proof {
            assert(names.deep_view() =~= now.push(list@[i as int].name@));
            assert(all.take(i + 1) =~= all.take(i as int).push(all[i as int]));
        }
        i += 1;
    }
    proof {
        assert(all.take(list@.len() as int) =~= all);
    }
}

fn add_models(list: &mut Vec<ModelNode>, more: &Vec<ModelNode>)
    ensures
        final(list).deep_view() == old(list).deep_view() + more.deep_view(),
{
    let ghost before = list.deep_view();
    let mut i: usize = 0;
    while i < more.len()
        invariant
            i <= more@.len(),
            list.deep_view() == before + more.deep_view().take(i as int),
        decreases more.len() - i,
    {
        let ghost now = list.deep_view();
        let m = more[i].clone();
        list.push(m);
        proof {
            assert(list.deep_view() =~= now.push(m.deep_view()));
            assert(more.deep_view().take(i + 1) =~= more.deep_view().take(i as int).push(
                more@[i as int].deep_view(),
            ));
        }
        i += 1;
    }
    proof {
        assert(more.deep_view().take(more@.len() as int) =~= more.deep_view());
    }
}

/// Validates a resolved tree; `strict` adds the style warnings.
pub fn validate(ast: &M3lAst, options: &ValidateOptions) -> (r: ValidateResult)
    ensures
        r.deep_view() == validated(ast.deep_view(), options.strict),
{
    let mut errors = clone_vec_diagnostic(&ast.errors);
    let mut warnings = clone_vec_diagnostic(&ast.warnings);
    let mut all: Vec<ModelNode> = Vec::new();
    let mut defined: Vec<String> = Vec::new();
    proof {
        assert(all.deep_view() =~= Seq::empty());
        assert(defined.deep_view() =~= Seq::empty());
    }
    add_models(&mut all, &ast.models);
    add_models(&mut all, &ast.views);
    add_model_names(&mut defined, &all);
    add_enum_names(&mut defined, &ast.enums);
    add_model_names(&mut defined, &ast.interfaces);
    let registry = &ast.attribute_registry;
    proof {
        assert(all.deep_view() =~= models_and_views(ast.deep_view()));
        assert(defined.deep_view() =~= context(ast.deep_view()).defined);
        assert(context_of(all.deep_view(), defined.deep_view(), registry.deep_view()) == context(
            ast.deep_view(),
        ));
    }
    check_models(FieldRule::Rollup, &all, &defined, registry, &all, false, &mut errors);
    check_models(FieldRule::Lookup, &all, &defined, registry, &all, false, &mut errors);
    check_view_sources(&all, &ast.views, &mut errors);
    check_all_repeated_fields(&all, &mut errors);
    check_models(FieldRule::Types, &all, &defined, registry, &all, true, &mut errors);
    validate_all_relations(&all, &mut errors);
    check_models(FieldRule::Deprecated, &all, &defined, registry, &all, true, &mut warnings);
    check_models(FieldRule::Registry, &all, &defined, registry, &all, true, &mut warnings);
    if options.strict {
        check_strict(&all, &defined, registry, &mut warnings);
    } else {
        proof {
            assert(warnings.deep_view() + Seq::<DiagnosticView>::empty() =~= warnings.deep_view());
        }
    }
    ValidateResult { errors, warnings }
}

} // verus!
